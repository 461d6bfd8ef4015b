//! Scene layers as text: which files are layers, in which order they stack,
//! and how their text breaks into rows.

use vstd::prelude::*;

verus! {

/// A file of the layers directory: its name, without the directory, and its
/// text.
#[derive(Debug)]
pub struct LayerFile {
    pub name: String,
    pub content: String,
}

/// The characters of a string.
fn chars_of(s: &str) -> (chars: Vec<char>)
    ensures
        chars@ == s@,
{
    let mut chars: Vec<char> = Vec::new();
    for c in it: s.chars()
        invariant
            chars@ == it.seq().take(it.index() as int),
            it.seq() == s@,
    {
        chars.push(c);
    }
    chars
}

/// The name ends in `.txt` and has something before that.
pub open spec fn spec_is_layer_file(name: Seq<char>) -> bool {
    name.len() >= 5 && name.subrange(name.len() - 4, name.len() as int) =~= seq!['.', 't', 'x', 't']
}

/// The character is a decimal digit.
pub open spec fn is_digit(c: char) -> bool {
    '0' <= c <= '9'
}

/// Every character of the string is a decimal digit.
pub open spec fn all_digits(s: Seq<char>) -> bool {
    forall|i: int| 0 <= i < s.len() ==> is_digit(#[trigger] s[i])
}

/// The number that a string of decimal digits writes.
pub open spec fn decimal_value(s: Seq<char>) -> int
    decreases s.len(),
{
    if s.len() == 0 {
        0
    } else {
        decimal_value(s.drop_last()) * 10 + (s.last() as int - '0' as int)
    }
}

/// The number that a string writes, if it writes one that a `u32` holds: one
/// or more decimal digits, with or without a plus sign in front.
pub open spec fn spec_parse_u32(s: Seq<char>) -> Option<u32> {
    let digits = if s.len() > 0 && s[0] == '+' { s.subrange(1, s.len() as int) } else { s };
    if digits.len() > 0 && all_digits(digits) && decimal_value(digits) <= u32::MAX {
        Some(decimal_value(digits) as u32)
    } else {
        None
    }
}

/// The number by which a layer file is ordered: the one its name writes
/// between `layer` and `.txt`, and 0 where it writes none there. It is 0 for
/// a file that is no layer.
pub open spec fn spec_layer_number(name: Seq<char>) -> u32 {
    if spec_is_layer_file(name) {
        let stem = name.subrange(0, name.len() - 4);
        if stem.len() >= 5 && stem.subrange(0, 5) =~= seq!['l', 'a', 'y', 'e', 'r'] {
            match spec_parse_u32(stem.subrange(5, stem.len() as int)) {
                Some(n) => n,
                None => 0,
            }
        } else {
            0
        }
    } else {
        0
    }
}

/// Whether a file of the directory is a layer.
pub fn is_layer_file(name: &str) -> (r: bool)
    ensures
        r == spec_is_layer_file(name@),
{
    is_layer_name(&chars_of(name))
}

fn is_layer_name(name: &Vec<char>) -> (r: bool)
    ensures
        r == spec_is_layer_file(name@),
{
    let n: usize = name.len();
    if n < 5 {
        return false;
    }
    let r = name[n - 4] == '.' && name[n - 3] == 't' && name[n - 2] == 'x' && name[n - 1] == 't';
    proof {
        let tail = name@.subrange(n - 4, n as int);
        assert(tail[0] == name@[n - 4]);
        assert(tail[1] == name@[n - 3]);
        assert(tail[2] == name@[n - 2]);
        assert(tail[3] == name@[n - 1]);
    }
    r
}

/// A prefix of a string of digits writes no larger a number than the string.
proof fn lemma_decimal_value_grows(s: Seq<char>, n: int)
    requires
        all_digits(s),
        0 <= n <= s.len(),
    ensures
        0 <= decimal_value(s.subrange(0, n)) <= decimal_value(s),
    decreases s.len() - n,
{
    if n == s.len() {
        assert(s.subrange(0, n) =~= s);
        lemma_decimal_value_nonnegative(s);
    } else {
        lemma_decimal_value_grows(s, n + 1);
        let longer = s.subrange(0, n + 1);
        assert(longer.drop_last() =~= s.subrange(0, n));
        assert(is_digit(s[n]));
        assert(longer.last() == s[n]);
        lemma_decimal_value_nonnegative(s.subrange(0, n));
    }
}

proof fn lemma_decimal_value_nonnegative(s: Seq<char>)
    requires
        all_digits(s),
    ensures
        0 <= decimal_value(s),
    decreases s.len(),
{
    if s.len() > 0 {
        assert(is_digit(s[s.len() - 1]));
        lemma_decimal_value_nonnegative(s.drop_last());
    }
}

/// Reads the number that a string writes.
pub fn parse_u32(s: &str) -> (r: Option<u32>)
    ensures
        r == spec_parse_u32(s@),
{
    let chars = chars_of(s);
    assert(chars@.subrange(0, chars.len() as int) =~= s@);
    parse_range(&chars, 0, chars.len())
}

/// Reads the number that the characters of `s` from `from` up to `to` write.
fn parse_range(s: &Vec<char>, from: usize, to: usize) -> (r: Option<u32>)
    requires
        from <= to <= s.len(),
    ensures
        r == spec_parse_u32(s@.subrange(from as int, to as int)),
{
    let ghost text = s@.subrange(from as int, to as int);
    let n: usize = to;
    let start: usize = if from < n && s[from] == '+' { from + 1 } else { from };
    let ghost digits = s@.subrange(start as int, n as int);
    proof {
        if from < n {
            assert(text[0] == s@[from as int]);
        }
        if start > from {
            assert(digits =~= text.subrange(1, text.len() as int));
        } else {
            assert(digits =~= text);
        }
    }
    let ghost parsed = if digits.len() > 0 && all_digits(digits) && decimal_value(digits)
        <= u32::MAX {
        Some(decimal_value(digits) as u32)
    } else {
        None
    };
    assert(parsed == spec_parse_u32(text));
    if start == n {
        return None;
    }
    let mut value: u64 = 0;
    let mut i: usize = start;
    while i < n
        invariant
            start <= i <= n,
            n == to,
            from <= start < n <= s.len(),
            digits == s@.subrange(start as int, n as int),
            text == s@.subrange(from as int, n as int),
            parsed == spec_parse_u32(text),
            parsed == if digits.len() > 0 && all_digits(digits) && decimal_value(digits)
                <= u32::MAX {
                Some(decimal_value(digits) as u32)
            } else {
                None::<u32>
            },
            all_digits(digits.subrange(0, i - start)),
            value == decimal_value(digits.subrange(0, i - start)),
            value <= u32::MAX,
        decreases n - i,
    {
        let c: char = s[i];
        let ghost before = digits.subrange(0, i - start);
        let ghost after = digits.subrange(0, i - start + 1);
        proof {
            assert(after.drop_last() =~= before);
            assert(after.last() == c);
        }
        if !(c >= '0' && c <= '9') {
            proof {
                assert(digits[i - start] == c);
                assert(!all_digits(digits));
            }
            return None;
        }
        let d: u64 = (c as u32 - '0' as u32) as u64;
        let next: u64 = value * 10 + d;
        proof {
            assert forall|k: int| 0 <= k < after.len() implies is_digit(#[trigger] after[k]) by {
                if k < before.len() {
                    assert(after[k] == before[k]);
                }
            }
        }
        if next > 0xffff_ffff {
            proof {
                if all_digits(digits) {
                    lemma_decimal_value_grows(digits, i - start + 1);
                }
            }
            return None;
        }
        value = next;
        i += 1;
    }
    proof {
        assert(digits.subrange(0, n - start) =~= digits);
    }
    Some(value as u32)
}

/// The number by which a layer file is ordered.
pub fn layer_number(name: &str) -> (number: u32)
    ensures
        number == spec_layer_number(name@),
{
    number_of(&chars_of(name))
}

fn number_of(name: &Vec<char>) -> (number: u32)
    ensures
        number == spec_layer_number(name@),
{
    if !is_layer_name(name) {
        return 0;
    }
    let n: usize = name.len();
    let ghost stem = name@.subrange(0, n - 4);
    if n - 4 >= 5 && name[0] == 'l' && name[1] == 'a' && name[2] == 'y' && name[3] == 'e'
        && name[4] == 'r' {
        proof {
            assert(stem.subrange(0, 5) =~= seq!['l', 'a', 'y', 'e', 'r']);
            assert(stem.subrange(5, stem.len() as int) =~= name@.subrange(5, n - 4));
        }
        match parse_range(name, 5, n - 4) {
            Some(number) => number,
            None => 0,
        }
    } else {
        proof {
            if stem.len() >= 5 {
                let head = stem.subrange(0, 5);
                assert(head[0] == name@[0]);
                assert(head[1] == name@[1]);
                assert(head[2] == name@[2]);
                assert(head[3] == name@[3]);
                assert(head[4] == name@[4]);
            }
        }
        0
    }
}

/// The indices of a vector as integers.
pub open spec fn as_ints(indices: Seq<usize>) -> Seq<int> {
    Seq::new(indices.len(), |k: int| indices[k] as int)
}

/// File `a` stacks below file `b`: it has the smaller number, or the same
/// number and stands earlier in the directory listing.
pub open spec fn stacks_below(files: Seq<LayerFile>, a: int, b: int) -> bool {
    let na = spec_layer_number(files[a].name@);
    let nb = spec_layer_number(files[b].name@);
    na < nb || (na == nb && a < b)
}

/// Where a file with the given number goes into an order of earlier files:
/// behind the last one whose number is not larger.
pub open spec fn insertion_point(files: Seq<LayerFile>, order: Seq<int>, number: u32) -> int
    decreases order.len(),
{
    if order.len() == 0 {
        0
    } else if spec_layer_number(files[order.last()].name@) <= number {
        order.len() as int
    } else {
        insertion_point(files, order.drop_last(), number)
    }
}

/// The layer files among the first `n` files, from the bottom layer up, each
/// by its index in `files`.
pub open spec fn spec_layer_order(files: Seq<LayerFile>, n: int) -> Seq<int>
    decreases n,
{
    if n <= 0 {
        Seq::empty()
    } else {
        let below = spec_layer_order(files, n - 1);
        let name = files[n - 1].name@;
        if spec_is_layer_file(name) {
            below.insert(insertion_point(files, below, spec_layer_number(name)), n - 1)
        } else {
            below
        }
    }
}

/// The number of each file that is a layer, in the order of the listing.
fn layer_numbers(files: &Vec<LayerFile>) -> (numbers: Vec<Option<u32>>)
    ensures
        numbers.len() == files.len(),
        forall|i: int|
            0 <= i < files.len() ==> #[trigger] numbers[i] == if spec_is_layer_file(
                files[i].name@,
            ) {
                Some(spec_layer_number(files[i].name@))
            } else {
                None
            },
{
    let mut numbers: Vec<Option<u32>> = Vec::new();
    let mut i: usize = 0;
    while i < files.len()
        invariant
            i <= files.len(),
            numbers.len() == i,
            forall|k: int|
                0 <= k < i ==> #[trigger] numbers[k] == if spec_is_layer_file(files[k].name@) {
                    Some(spec_layer_number(files[k].name@))
                } else {
                    None
                },
        decreases files.len() - i,
    {
        let name = chars_of(files[i].name.as_str());
        if is_layer_name(&name) {
            numbers.push(Some(number_of(&name)));
        } else {
            numbers.push(None);
        }
        i += 1;
    }
    numbers
}

/// The layer files from the bottom layer up, each by its index in `files`:
/// ordered by number, and files of one number as the listing has them.
pub fn layer_order(files: &Vec<LayerFile>) -> (order: Vec<usize>)
    ensures
        as_ints(order@) == spec_layer_order(files@, files.len() as int),
{
    let numbers = layer_numbers(files);
    let mut order: Vec<usize> = Vec::new();
    let mut i: usize = 0;
    assert(as_ints(order@) =~= spec_layer_order(files@, 0));
    while i < files.len()
        invariant
            i <= files.len(),
            numbers.len() == files.len(),
            forall|k: int|
                0 <= k < files.len() ==> #[trigger] numbers[k] == if spec_is_layer_file(
                    files[k].name@,
                ) {
                    Some(spec_layer_number(files[k].name@))
                } else {
                    None
                },
            as_ints(order@) == spec_layer_order(files@, i as int),
            forall|k: int|
                0 <= k < order.len() ==> order[k] < i && spec_is_layer_file(
                    files[order[k] as int].name@,
                ),
        decreases files.len() - i,
    {
        if let Some(number) = numbers[i] {
            let ghost below = as_ints(order@);
            let mut p: usize = order.len();
            assert(below.subrange(0, p as int) =~= below);
            while p > 0 && above(&numbers, order[p - 1], number)
                invariant
                    p <= order.len(),
                    i < files.len(),
                    numbers.len() == files.len(),
                    forall|k: int|
                        0 <= k < files.len() ==> #[trigger] numbers[k] == if spec_is_layer_file(
                            files[k].name@,
                        ) {
                            Some(spec_layer_number(files[k].name@))
                        } else {
                            None
                        },
                    below == as_ints(order@),
                    forall|k: int|
                        0 <= k < order.len() ==> order[k] < i && spec_is_layer_file(
                            files[order[k] as int].name@,
                        ),
                    insertion_point(files@, below, number) == insertion_point(
                        files@,
                        below.subrange(0, p as int),
                        number,
                    ),
                decreases p,
            {
                proof {
                    let head = below.subrange(0, p as int);
                    assert(head.last() == order[p - 1]);
                    assert(head.drop_last() =~= below.subrange(0, p - 1));
                }
                p -= 1;
            }
            proof {
                let head = below.subrange(0, p as int);
                if p > 0 {
                    assert(head.last() == order[p - 1]);
                }
            }
            order.insert(p, i);
            assert(as_ints(order@) =~= below.insert(p as int, i as int));
            assert forall|k: int| 0 <= k < order.len() implies order[k] < i + 1
                && spec_is_layer_file(files[order[k] as int].name@) by {
                if k < p {
                    assert(order[k] == below[k]);
                } else if k > p {
                    assert(order[k] == below[k - 1]);
                }
            }
        }
        i += 1;
    }
    order
}

/// Whether the layer in place `at` of the listing has a larger number than
/// `number`.
fn above(numbers: &Vec<Option<u32>>, at: usize, number: u32) -> (r: bool)
    requires
        at < numbers.len(),
        numbers[at as int] is Some,
    ensures
        r == (numbers[at as int]->0 > number),
{
    match numbers[at] {
        Some(n) => n > number,
        None => false,
    }
}

/// What the insertion point divides: in an order whose numbers do not fall,
/// the files before it have numbers up to `number`, the files from it on have
/// larger ones.
proof fn lemma_insertion_point_divides(files: Seq<LayerFile>, order: Seq<int>, number: u32)
    requires
        forall|j: int, k: int|
            0 <= j < k < order.len() ==> spec_layer_number(files[order[j]].name@)
                <= spec_layer_number(files[order[k]].name@),
    ensures
        0 <= insertion_point(files, order, number) <= order.len(),
        forall|k: int|
            0 <= k < insertion_point(files, order, number) ==> spec_layer_number(
                files[#[trigger] order[k]].name@,
            ) <= number,
        forall|k: int|
            insertion_point(files, order, number) <= k < order.len() ==> spec_layer_number(
                files[#[trigger] order[k]].name@,
            ) > number,
    decreases order.len(),
{
    if order.len() > 0 && spec_layer_number(files[order.last()].name@) > number {
        let head = order.drop_last();
        assert forall|j: int, k: int| 0 <= j < k < head.len() implies spec_layer_number(
            files[head[j]].name@,
        ) <= spec_layer_number(files[head[k]].name@) by {
            assert(head[j] == order[j] && head[k] == order[k]);
        }
        lemma_insertion_point_divides(files, head, number);
        let p = insertion_point(files, head, number);
        assert forall|k: int| 0 <= k < p implies spec_layer_number(
            files[#[trigger] order[k]].name@,
        ) <= number by {
            assert(order[k] == head[k]);
        }
        assert forall|k: int| p <= k < order.len() implies spec_layer_number(
            files[#[trigger] order[k]].name@,
        ) > number by {
            if k < head.len() {
                assert(order[k] == head[k]);
            }
        }
    }
}

/// Every entry of `order` is the index of a layer file among the first `n`
/// files.
pub open spec fn holds_only_layers(files: Seq<LayerFile>, order: Seq<int>, n: int) -> bool {
    forall|k: int|
        0 <= k < order.len() ==> 0 <= #[trigger] order[k] < n && spec_is_layer_file(
            files[order[k]].name@,
        )
}

/// Every layer file among the first `n` files is in `order`.
pub open spec fn holds_every_layer(files: Seq<LayerFile>, order: Seq<int>, n: int) -> bool {
    forall|i: int|
        0 <= i < n && spec_is_layer_file(#[trigger] files[i].name@) ==> order.contains(i)
}

/// Every file of `order` stacks below those behind it.
pub open spec fn stacked(files: Seq<LayerFile>, order: Seq<int>) -> bool {
    forall|j: int, k: int|
        0 <= j < k < order.len() ==> stacks_below(files, #[trigger] order[j], #[trigger] order[k])
}

proof fn lemma_insert_keeps_only_layers(
    files: Seq<LayerFile>,
    below: Seq<int>,
    p: int,
    n: int,
)
    requires
        0 < n <= files.len(),
        0 <= p <= below.len(),
        holds_only_layers(files, below, n - 1),
        spec_is_layer_file(files[n - 1].name@),
    ensures
        holds_only_layers(files, below.insert(p, n - 1), n),
{
    let order = below.insert(p, n - 1);
    assert forall|k: int| 0 <= k < order.len() implies 0 <= #[trigger] order[k] < n
        && spec_is_layer_file(files[order[k]].name@) by {
        if k < p {
            assert(order[k] == below[k]);
        } else if k > p {
            assert(order[k] == below[k - 1]);
        }
    }
}

proof fn lemma_insert_keeps_every_layer(
    files: Seq<LayerFile>,
    below: Seq<int>,
    p: int,
    n: int,
)
    requires
        0 < n <= files.len(),
        0 <= p <= below.len(),
        holds_every_layer(files, below, n - 1),
    ensures
        holds_every_layer(files, below.insert(p, n - 1), n),
{
    let order = below.insert(p, n - 1);
    assert forall|i: int| 0 <= i < n && spec_is_layer_file(
        #[trigger] files[i].name@,
    ) implies order.contains(i) by {
        if i == n - 1 {
            assert(order[p] == i);
        } else {
            assert(below.contains(i));
            let k = choose|k: int| 0 <= k < below.len() && below[k] == i;
            if k < p {
                assert(order[k] == i);
            } else {
                assert(order[k + 1] == i);
            }
        }
    }
}

proof fn lemma_insert_keeps_stacked(files: Seq<LayerFile>, below: Seq<int>, p: int, x: int)
    requires
        0 <= p <= below.len(),
        stacked(files, below),
        forall|k: int| 0 <= k < p ==> stacks_below(files, #[trigger] below[k], x),
        forall|k: int| p <= k < below.len() ==> stacks_below(files, x, #[trigger] below[k]),
    ensures
        stacked(files, below.insert(p, x)),
{
    let order = below.insert(p, x);
    assert forall|j: int, k: int| 0 <= j < k < order.len() implies stacks_below(
        files,
        #[trigger] order[j],
        #[trigger] order[k],
    ) by {
        if k < p {
            assert(order[j] == below[j] && order[k] == below[k]);
        } else if k == p {
            assert(order[j] == below[j] && order[k] == x);
        } else if j < p {
            assert(order[j] == below[j] && order[k] == below[k - 1]);
        } else if j == p {
            assert(order[j] == x && order[k] == below[k - 1]);
        } else {
            assert(order[j] == below[j - 1] && order[k] == below[k - 1]);
        }
    }
}

/// The order among the first `n` files holds exactly the layer files among
/// them, and every file in it stacks below those behind it.
proof fn lemma_layer_order_prefix(files: Seq<LayerFile>, n: int)
    requires
        0 <= n <= files.len(),
    ensures
        holds_only_layers(files, spec_layer_order(files, n), n),
        holds_every_layer(files, spec_layer_order(files, n), n),
        stacked(files, spec_layer_order(files, n)),
    decreases n,
{
    if n > 0 {
        lemma_layer_order_prefix(files, n - 1);
        let below = spec_layer_order(files, n - 1);
        let name = files[n - 1].name@;
        if spec_is_layer_file(name) {
            let number = spec_layer_number(name);
            assert forall|j: int, k: int| 0 <= j < k < below.len() implies spec_layer_number(
                files[below[j]].name@,
            ) <= spec_layer_number(files[below[k]].name@) by {
                assert(stacks_below(files, below[j], below[k]));
            }
            lemma_insertion_point_divides(files, below, number);
            let p = insertion_point(files, below, number);
            lemma_insert_keeps_only_layers(files, below, p, n);
            lemma_insert_keeps_every_layer(files, below, p, n);
            assert forall|k: int| 0 <= k < p implies stacks_below(
                files,
                #[trigger] below[k],
                n - 1,
            ) by {
                assert(below[k] < n - 1);
            }
            lemma_insert_keeps_stacked(files, below, p, n - 1);
        } else {
            let order = spec_layer_order(files, n);
            assert(order == below);
            assert forall|i: int| 0 <= i < n && spec_is_layer_file(
                #[trigger] files[i].name@,
            ) implies order.contains(i) by {
                assert(i < n - 1);
            }
        }
    }
}

proof fn lemma_insertion_point_is_inside(files: Seq<LayerFile>, order: Seq<int>, number: u32)
    ensures
        0 <= insertion_point(files, order, number) <= order.len(),
    decreases order.len(),
{
    if order.len() > 0 {
        lemma_insertion_point_is_inside(files, order.drop_last(), number);
    }
}

/// There are no more layers than files.
pub proof fn lemma_layer_order_is_short(files: Seq<LayerFile>, n: int)
    requires
        0 <= n,
    ensures
        spec_layer_order(files, n).len() <= n,
    decreases n,
{
    if n > 0 {
        lemma_layer_order_is_short(files, n - 1);
        lemma_insertion_point_is_inside(
            files,
            spec_layer_order(files, n - 1),
            spec_layer_number(files[n - 1].name@),
        );
    }
}

/// The layers are exactly the files whose names end in `.txt`, each of them
/// once, and they stack by number, files of one number as the listing has
/// them.
pub proof fn lemma_layer_order_sorts_layers(files: Seq<LayerFile>)
    ensures
        holds_only_layers(files, spec_layer_order(files, files.len() as int), files.len() as int),
        holds_every_layer(files, spec_layer_order(files, files.len() as int), files.len() as int),
        stacked(files, spec_layer_order(files, files.len() as int)),
{
    lemma_layer_order_prefix(files, files.len() as int);
}

/// Where the line that begins at `from` ends: at the next line feed, or at
/// the end of the text.
pub open spec fn line_end(text: Seq<char>, from: int) -> int
    decreases text.len() - from,
{
    if from >= text.len() {
        text.len() as int
    } else if text[from] == '\n' {
        from
    } else {
        line_end(text, from + 1)
    }
}

/// The line that begins at `from`, without the line feed that ends it, and
/// without a carriage return just before that line feed.
pub open spec fn line_at(text: Seq<char>, from: int) -> Seq<char> {
    let end = line_end(text, from);
    if from < end < text.len() && text[end - 1] == '\r' {
        text.subrange(from, end - 1)
    } else {
        text.subrange(from, end)
    }
}

/// A line ends no earlier than it begins, at a line feed or at the end of the
/// text, and holds no line feed.
pub proof fn lemma_line_end_bounds(text: Seq<char>, from: int)
    requires
        0 <= from <= text.len(),
    ensures
        from <= line_end(text, from) <= text.len(),
        line_end(text, from) < text.len() ==> text[line_end(text, from)] == '\n',
        forall|k: int| from <= k < line_end(text, from) ==> text[k] != '\n',
    decreases text.len() - from,
{
    if from < text.len() && text[from] != '\n' {
        lemma_line_end_bounds(text, from + 1);
    }
}

/// The lines of the text from `from` on. A line feed ends a line; the last
/// line needs none, and after a last line feed no further line begins.
pub open spec fn lines_from(text: Seq<char>, from: int) -> Seq<Seq<char>>
    decreases text.len() - from,
{
    if 0 <= from < text.len() {
        let end = line_end(text, from);
        proof {
            lemma_line_end_bounds(text, from);
            assert(from <= end);
        }
        seq![line_at(text, from)] + if end < text.len() {
            lines_from(text, end + 1)
        } else {
            Seq::empty()
        }
    } else {
        Seq::empty()
    }
}

/// The lines of a text are no more than its characters, and no line is
/// longer than the text.
pub proof fn lemma_lines_are_short(text: Seq<char>, from: int)
    requires
        0 <= from <= text.len(),
    ensures
        lines_from(text, from).len() <= text.len() - from,
        forall|k: int|
            0 <= k < lines_from(text, from).len() ==> (#[trigger] lines_from(text, from)[k]).len()
                <= text.len(),
    decreases text.len() - from,
{
    if from < text.len() {
        lemma_line_end_bounds(text, from);
        let end = line_end(text, from);
        if end < text.len() {
            lemma_lines_are_short(text, end + 1);
        }
    }
}

/// No line holds a line feed.
pub proof fn lemma_lines_hold_no_line_feed(text: Seq<char>, from: int)
    requires
        0 <= from <= text.len(),
    ensures
        forall|k: int, j: int|
            0 <= k < lines_from(text, from).len() && 0 <= j < lines_from(text, from)[k].len()
                ==> #[trigger] lines_from(text, from)[k][j] != '\n',
    decreases text.len() - from,
{
    if from < text.len() {
        lemma_line_end_bounds(text, from);
        let end = line_end(text, from);
        let first = line_at(text, from);
        assert forall|j: int| 0 <= j < first.len() implies first[j] != '\n' by {
            assert(first[j] == text[from + j]);
        }
        if end < text.len() {
            lemma_lines_hold_no_line_feed(text, end + 1);
            let rest = lines_from(text, end + 1);
            assert forall|k: int, j: int|
                0 <= k < lines_from(text, from).len() && 0 <= j < lines_from(
                    text,
                    from,
                )[k].len() implies #[trigger] lines_from(text, from)[k][j] != '\n' by {
                if k > 0 {
                    assert(lines_from(text, from)[k] == rest[k - 1]);
                }
            }
        }
    }
}

/// The lines of a text.
pub open spec fn spec_lines(text: Seq<char>) -> Seq<Seq<char>> {
    lines_from(text, 0)
}

/// The rows of a vector of lines.
pub open spec fn rows_of(lines: Seq<Vec<char>>) -> Seq<Seq<char>> {
    Seq::new(lines.len(), |k: int| lines[k]@)
}

fn copy_range(text: &Vec<char>, from: usize, to: usize) -> (copy: Vec<char>)
    requires
        from <= to <= text.len(),
    ensures
        copy@ == text@.subrange(from as int, to as int),
{
    let mut copy: Vec<char> = Vec::new();
    let mut i: usize = from;
    while i < to
        invariant
            from <= i <= to <= text.len(),
            copy@ == text@.subrange(from as int, i as int),
        decreases to - i,
    {
        copy.push(text[i]);
        assert(copy@ =~= text@.subrange(from as int, i + 1));
        i += 1;
    }
    copy
}

/// Breaks a text into its lines, each a row of characters.
pub fn split_lines(text: &str) -> (lines: Vec<Vec<char>>)
    ensures
        rows_of(lines@) == spec_lines(text@),
{
    split_chars(&chars_of(text))
}

fn split_chars(text: &Vec<char>) -> (lines: Vec<Vec<char>>)
    ensures
        rows_of(lines@) == spec_lines(text@),
{
    let n: usize = text.len();
    let mut lines: Vec<Vec<char>> = Vec::new();
    let mut start: usize = 0;
    assert(rows_of(lines@) + lines_from(text@, 0) =~= spec_lines(text@));
    while start < n
        invariant
            start <= n,
            n == text.len(),
            rows_of(lines@) + lines_from(text@, start as int) == spec_lines(text@),
        decreases n - start,
    {
        let mut end: usize = start;
        while end < n && text[end] != '\n'
            invariant
                start <= end <= n,
                n == text.len(),
                line_end(text@, start as int) == line_end(text@, end as int),
            decreases n - end,
        {
            end += 1;
        }
        proof {
            lemma_line_end_bounds(text@, start as int);
            assert(line_end(text@, end as int) == end);
        }
        let stop: usize = if start < end && end < n && text[end - 1] == '\r' {
            end - 1
        } else {
            end
        };
        let line = copy_range(text, start, stop);
        let ghost before = rows_of(lines@);
        lines.push(line);
        let next: usize = if end < n { end + 1 } else { n };
        proof {
            assert(line@ == line_at(text@, start as int));
            assert(rows_of(lines@) =~= before + seq![line_at(text@, start as int)]);
            assert(before + lines_from(text@, start as int) =~= rows_of(lines@) + lines_from(
                text@,
                next as int,
            ));
        }
        start = next;
    }
    assert(rows_of(lines@) + lines_from(text@, start as int) =~= rows_of(lines@));
    lines
}

} // verus!
