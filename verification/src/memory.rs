//! How much memory the node uses, out of the status that the kernel keeps of it.

use crate::text::decimal_text;
use crate::text::digit_char;
use vstd::prelude::*;

verus! {

/// Whether a character is white space.
pub open spec fn is_space(c: char) -> bool {
    let n = c as u32;
    ||| 0x9 <= n <= 0xd
    ||| n == 0x20
    ||| n == 0x85
    ||| n == 0xa0
    ||| n == 0x1680
    ||| 0x2000 <= n <= 0x200a
    ||| n == 0x2028
    ||| n == 0x2029
    ||| n == 0x202f
    ||| n == 0x205f
    ||| n == 0x3000
}

/// How long the run of white space, or of other characters, at the start of the text is.
pub open spec fn run(t: Seq<char>, space: bool) -> nat
    decreases t.len(),
{
    if t.len() > 0 && is_space(t[0]) == space {
        1 + run(t.skip(1), space)
    } else {
        0
    }
}

/// The second word of a line, where it has one. Words are separated by white space.
pub open spec fn second_word(line: Seq<char>) -> Option<Seq<char>> {
    let first = line.skip(run(line, true) as int);
    let behind = first.skip(run(first, false) as int);
    let second = behind.skip(run(behind, true) as int);
    if second.len() == 0 {
        None
    } else {
        Some(second.take(run(second, false) as int))
    }
}

/// The number that decimal digits stand for; none where there is another character.
pub open spec fn digits_value(d: Seq<char>) -> Option<nat>
    decreases d.len(),
{
    if d.len() == 0 {
        Some(0)
    } else if '0' <= d.last() <= '9' {
        match digits_value(d.drop_last()) {
            Some(v) => Some((v * 10 + (d.last() as u32 - '0' as u32)) as nat),
            None => None,
        }
    } else {
        None
    }
}

/// The number that a word stands for: decimal digits, perhaps behind a plus sign. A word that
/// stands for no number of 64 bits counts as zero.
pub open spec fn number_or_zero(w: Seq<char>) -> u64 {
    let d = if w.len() > 1 && w[0] == '+' {
        w.skip(1)
    } else {
        w
    };
    match digits_value(d) {
        Some(v) => if d.len() > 0 && v <= u64::MAX {
            v as u64
        } else {
            0
        },
        None => 0,
    }
}

/// Whether a line starts with a label.
pub open spec fn labelled(line: Seq<char>, label: Seq<char>) -> bool {
    label.len() <= line.len() && line.take(label.len() as int) == label
}

/// What is known of the resident and of the virtual memory, in kilobytes, after one more line.
pub open spec fn after_line(line: Seq<char>, rss: u64, vsz: u64) -> (u64, u64) {
    if labelled(line, "VmRSS:"@) {
        match second_word(line) {
            Some(w) => (number_or_zero(w), vsz),
            None => (rss, vsz),
        }
    } else if labelled(line, "VmSize:"@) {
        match second_word(line) {
            Some(w) => (rss, number_or_zero(w)),
            None => (rss, vsz),
        }
    } else {
        (rss, vsz)
    }
}

/// How many characters the first line of the text has.
pub open spec fn line_length(t: Seq<char>) -> nat
    decreases t.len(),
{
    if t.len() == 0 || t[0] == '\n' {
        0
    } else {
        1 + line_length(t.skip(1))
    }
}

/// What is known of the memory, in kilobytes, after all lines of the text.
pub open spec fn after_text(t: Seq<char>, rss: u64, vsz: u64) -> (u64, u64)
    decreases t.len(),
{
    if t.len() == 0 {
        (rss, vsz)
    } else {
        let n = line_length(t) as int;
        let (rss, vsz) = after_line(t.take(n), rss, vsz);
        if n < t.len() {
            after_text(t.skip(n + 1), rss, vsz)
        } else {
            (rss, vsz)
        }
    }
}

fn space(c: char) -> (r: bool)
    ensures
        r == is_space(c),
{
    let n: u32 = c as u32;
    (0x9 <= n && n <= 0xd) || n == 0x20 || n == 0x85 || n == 0xa0 || n == 0x1680 || (0x2000 <= n
        && n <= 0x200a) || n == 0x2028 || n == 0x2029 || n == 0x202f || n == 0x205f || n == 0x3000
}

fn run_of(t: &[char], spaces: bool) -> (r: usize)
    ensures
        r == run(t@, spaces),
        r <= t@.len(),
{
    let mut i: usize = 0;
    proof {
        assert(t@.skip(0) =~= t@);
    }
    while i < t.len() && space(t[i]) == spaces
        invariant
            i <= t@.len(),
            run(t@, spaces) == i + run(t@.skip(i as int), spaces),
        decreases t@.len() - i,
    {
        proof {
            assert(t@.skip(i as int).skip(1) =~= t@.skip(i + 1));
        }
        i += 1;
    }
    i
}

fn from(t: &[char], n: usize) -> (r: &[char])
    requires
        n <= t@.len(),
    ensures
        r@ == t@.skip(n as int),
{
    vstd::slice::slice_subrange(t, n, t.len())
}

fn second_word_of(line: &[char]) -> (r: Option<&[char]>)
    ensures
        match second_word(line@) {
            Some(w) => r matches Some(x) && x@ == w,
            None => r is None,
        },
{
    let first = from(line, run_of(line, true));
    let behind = from(first, run_of(first, false));
    let second = from(behind, run_of(behind, true));
    if second.len() == 0 {
        return None;
    }
    Some(vstd::slice::slice_subrange(second, 0, run_of(second, false)))
}

proof fn lemma_digits_prefix(d: Seq<char>, n: int)
    requires
        0 <= n <= d.len(),
    ensures
        digits_value(d) matches Some(v) ==> digits_value(d.take(n)) matches Some(p) && p <= v,
    decreases d.len() - n,
{
    if n < d.len() {
        lemma_digits_prefix(d, n + 1);
        assert(d.take(n + 1).drop_last() =~= d.take(n));
    } else {
        assert(d.take(n) =~= d);
    }
}

fn number_of(w: &[char]) -> (r: u64)
    ensures
        r == number_or_zero(w@),
{
    let d = if w.len() > 1 && w[0] == '+' {
        from(w, 1)
    } else {
        w
    };
    if d.len() == 0 {
        return 0;
    }
    let mut value: u64 = 0;
    let mut i: usize = 0;
    while i < d.len()
        invariant
            i <= d@.len(),
            digits_value(d@.take(i as int)) == Some(value as nat),
            d@.len() > 0,
            d@ == (if w@.len() > 1 && w@[0] == '+' {
                w@.skip(1)
            } else {
                w@
            }),
        decreases d@.len() - i,
    {
        let c = d[i];
        proof {
            assert(d@.take(i + 1).drop_last() =~= d@.take(i as int));
            assert(d@.take(i + 1).last() == c);
            lemma_digits_prefix(d@, i + 1);
        }
        if c < '0' || c > '9' {
            return 0;
        }
        let digit: u64 = (c as u32 - '0' as u32) as u64;
        if value > (u64::MAX - digit) / 10 {
            return 0;
        }
        value = value * 10 + digit;
        i += 1;
    }
    proof {
        assert(d@.take(i as int) =~= d@);
    }
    value
}

fn starts_with(line: &[char], label: &str) -> (r: bool)
    ensures
        r == labelled(line@, label@),
{
    let n: usize = label.unicode_len();
    if n > line.len() {
        return false;
    }
    let mut i: usize = 0;
    while i < n
        invariant
            i <= n,
            n == label@.len(),
            n <= line@.len(),
            line@.take(i as int) == label@.take(i as int),
        decreases n - i,
    {
        if line[i] != label.get_char(i) {
            proof {
                assert(line@.take(n as int)[i as int] != label@[i as int]);
            }
            return false;
        }
        proof {
            assert(line@.take(i + 1) =~= line@.take(i as int).push(line@[i as int]));
            assert(label@.take(i + 1) =~= label@.take(i as int).push(label@[i as int]));
        }
        i += 1;
    }
    proof {
        assert(label@.take(n as int) =~= label@);
    }
    true
}

fn line_length_of(t: &[char]) -> (r: usize)
    ensures
        r == line_length(t@),
        r <= t@.len(),
{
    let mut i: usize = 0;
    proof {
        assert(t@.skip(0) =~= t@);
    }
    while i < t.len() && t[i] != '\n'
        invariant
            i <= t@.len(),
            line_length(t@) == i + line_length(t@.skip(i as int)),
        decreases t@.len() - i,
    {
        proof {
            assert(t@.skip(i as int).skip(1) =~= t@.skip(i + 1));
        }
        i += 1;
    }
    i
}

fn characters(s: &str) -> (r: Vec<char>)
    ensures
        r@ == s@,
{
    let n: usize = s.unicode_len();
    let mut out: Vec<char> = Vec::new();
    let mut i: usize = 0;
    while i < n
        invariant
            i <= n,
            n == s@.len(),
            out@ == s@.take(i as int),
        decreases n - i,
    {
        out.push(s.get_char(i));
        proof {
            assert(s@.take(i + 1) =~= s@.take(i as int).push(s@[i as int]));
        }
        i += 1;
    }
    proof {
        assert(s@.take(n as int) =~= s@);
    }
    out
}

/// The resident and the virtual memory in megabytes, out of the text of `/proc/self/status`. What
/// the text does not say is zero.
pub fn memory_usage(status: &str) -> (r: (u64, u64))
    ensures
        r.0 == after_text(status@, 0, 0).0 / 1024,
        r.1 == after_text(status@, 0, 0).1 / 1024,
{
    let text = characters(status);
    let mut rest: &[char] = text.as_slice();
    let mut rss: u64 = 0;
    let mut vsz: u64 = 0;
    while rest.len() > 0
        invariant
            after_text(status@, 0, 0) == after_text(rest@, rss, vsz),
        decreases rest@.len(),
    {
        let n: usize = line_length_of(rest);
        let line = vstd::slice::slice_subrange(rest, 0, n);
        let ghost whole = rest@;
        let ghost before = (rss, vsz);
        proof {
            assert(line@ =~= whole.take(n as int));
        }
        if starts_with(line, "VmRSS:") {
            match second_word_of(line) {
                Some(w) => {
                    rss = number_of(w);
                },
                None => {},
            }
        } else if starts_with(line, "VmSize:") {
            match second_word_of(line) {
                Some(w) => {
                    vsz = number_of(w);
                },
                None => {},
            }
        }
        proof {
            assert((rss, vsz) == after_line(line@, before.0, before.1));
        }
        if n < rest.len() {
            rest = from(rest, n + 1);
        } else {
            rest = from(rest, n);
        }
    }
    (rss / 1024, vsz / 1024)
}

/// A number that was written in decimal is read back, with a plus sign in front or without.
pub proof fn law_written_numbers_are_read_back(n: u64)
    ensures
        number_or_zero(decimal_text(n as nat)) == n,
        number_or_zero(seq!['+'] + decimal_text(n as nat)) == n,
{
    let d = decimal_text(n as nat);
    lemma_digits_of(n as nat);
    assert((seq!['+'] + d).skip(1) =~= d);
}

proof fn lemma_digits_of(n: nat)
    ensures
        digits_value(decimal_text(n)) == Some(n),
        decimal_text(n).len() > 0,
        decimal_text(n)[0] != '+',
    decreases n,
{
    if n < 10 {
        let d = seq![digit_char(n)];
        assert(d.drop_last() =~= Seq::<char>::empty());
        assert(digits_value(d.drop_last()) == Some(0nat));
    } else {
        lemma_digits_of(n / 10);
        assert(decimal_text(n).drop_last() =~= decimal_text(n / 10));
        assert(decimal_text(n)[0] == decimal_text(n / 10)[0]);
    }
}

proof fn lemma_run(t: Seq<char>, n: int, space: bool)
    requires
        0 <= n <= t.len(),
        forall|i: int| 0 <= i < n ==> is_space(#[trigger] t[i]) == space,
        n < t.len() ==> is_space(t[n]) != space,
    ensures
        run(t, space) == n,
    decreases t.len(),
{
    if n > 0 {
        let rest = t.skip(1);
        assert forall|i: int| 0 <= i < n - 1 implies is_space(#[trigger] rest[i]) == space by {
            assert(rest[i] == t[i + 1]);
        }
        lemma_run(rest, n - 1, space);
        assert(is_space(t[0]) == space);
    }
}

/// The second word of a line is what stands between the first two stretches of white space behind
/// the first word, whatever the words are.
pub proof fn law_second_word_follows_the_first(
    first: Seq<char>,
    space: Seq<char>,
    second: Seq<char>,
    rest: Seq<char>,
)
    requires
        first.len() > 0,
        space.len() > 0,
        second.len() > 0,
        forall|i: int| 0 <= i < first.len() ==> !is_space(#[trigger] first[i]),
        forall|i: int| 0 <= i < space.len() ==> is_space(#[trigger] space[i]),
        forall|i: int| 0 <= i < second.len() ==> !is_space(#[trigger] second[i]),
        rest.len() > 0 ==> is_space(rest[0]),
    ensures
        second_word(first + space + second + rest) == Some(second),
        second_word(space + first + space + second + rest) == Some(second),
        second_word(first + space) is None,
        second_word(first) is None,
{
    let from_second = second + rest;
    let from_space = space + from_second;
    let from_first = first + from_space;
    lemma_run(from_second, second.len() as int, false);
    lemma_run(from_space, space.len() as int, true);
    lemma_run(from_first, first.len() as int, false);
    lemma_run(from_first, 0, true);
    lemma_run(space + from_first, space.len() as int, true);
    assert(first + space + second + rest =~= from_first);
    assert(space + first + space + second + rest =~= space + from_first);
    assert((space + from_first).skip(space.len() as int) =~= from_first);
    assert(from_first.skip(0) =~= from_first);
    assert(from_first.skip(first.len() as int) =~= from_space);
    assert(from_space.skip(space.len() as int) =~= from_second);
    assert(from_second.take(second.len() as int) =~= second);
    lemma_run(first + space, 0, true);
    lemma_run(first + space, first.len() as int, false);
    lemma_run(space, space.len() as int, true);
    assert((first + space).skip(0) =~= first + space);
    assert((first + space).skip(first.len() as int) =~= space);
    lemma_run(first, 0, true);
    lemma_run(first, first.len() as int, false);
    assert(first.skip(0) =~= first);
    lemma_run(first.skip(first.len() as int), 0, true);
}

proof fn lemma_line_length(line: Seq<char>, rest: Seq<char>)
    requires
        forall|i: int| 0 <= i < line.len() ==> #[trigger] line[i] != '\n',
    ensures
        line_length(line + seq!['\n'] + rest) == line.len(),
        line_length(line) == line.len(),
    decreases line.len(),
{
    let t = line + seq!['\n'] + rest;
    if line.len() > 0 {
        let less = line.skip(1);
        assert forall|i: int| 0 <= i < less.len() implies #[trigger] less[i] != '\n' by {
            assert(less[i] == line[i + 1]);
        }
        lemma_line_length(less, rest);
        assert(t.skip(1) =~= less + seq!['\n'] + rest);
        assert(t[0] == line[0]);
    }
}

/// A text is read line by line: what its first line says counts, and then what the others say.
pub proof fn law_text_is_read_line_by_line(line: Seq<char>, rest: Seq<char>, rss: u64, vsz: u64)
    requires
        forall|i: int| 0 <= i < line.len() ==> #[trigger] line[i] != '\n',
    ensures
        ({
            let (mid_rss, mid_vsz) = after_line(line, rss, vsz);
            after_text(line + seq!['\n'] + rest, rss, vsz) == after_text(rest, mid_rss, mid_vsz)
        }),
        line.len() > 0 ==> after_text(line, rss, vsz) == after_line(line, rss, vsz),
{
    let t = line + seq!['\n'] + rest;
    lemma_line_length(line, rest);
    assert(t.take(line.len() as int) =~= line);
    assert(t.skip(line.len() as int + 1) =~= rest);
    assert(line.take(line.len() as int) =~= line);
}

/// Each label sets one of the two sizes and leaves the other; a line with neither label sets none.
pub proof fn law_each_label_sets_its_size(value: Seq<char>, line: Seq<char>, rss: u64, vsz: u64)
    requires
        !("VmRSS:"@.is_prefix_of(line)),
        !("VmSize:"@.is_prefix_of(line)),
    ensures
        after_line(line, rss, vsz) == (rss, vsz),
        second_word("VmRSS:"@ + value) matches Some(w) ==> after_line("VmRSS:"@ + value, rss, vsz)
            == (number_or_zero(w), vsz),
        second_word("VmSize:"@ + value) matches Some(w) ==> after_line(
            "VmSize:"@ + value,
            rss,
            vsz,
        ) == (rss, number_or_zero(w)),
{
    reveal_strlit("VmRSS:");
    reveal_strlit("VmSize:");
    let (a, b) = ("VmRSS:"@ + value, "VmSize:"@ + value);
    assert(a.take(6) =~= "VmRSS:"@);
    assert(b.take(7) =~= "VmSize:"@);
    assert(b.take(6)[2] == 'S' && b.take(6)[3] == 'i');
    assert("VmRSS:"@[2] == 'R');
    if labelled(line, "VmRSS:"@) {
        assert("VmRSS:"@ =~= line.subrange(0, 6));
    }
    if labelled(line, "VmSize:"@) {
        assert("VmSize:"@ =~= line.subrange(0, 7));
    }
}

/// What is no number in 64 bits counts as zero: nothing at all, a sign alone, what holds a
/// character that is no digit, and what is too large.
pub proof fn law_no_number_counts_as_zero(w: Seq<char>, i: int)
    ensures
        number_or_zero(Seq::<char>::empty()) == 0,
        number_or_zero(seq!['+']) == 0,
        0 <= i < w.len() && !('0' <= w[i] <= '9') && !(i == 0 && w[i] == '+') ==> number_or_zero(w)
            == 0,
        (digits_value(w) matches Some(v) && v > u64::MAX) ==> number_or_zero(w) == 0,
{
    let plus = seq!['+'];
    assert(plus.last() == '+');
    assert(digits_value(plus) is None);
    if 0 <= i < w.len() && !('0' <= w[i] <= '9') && !(i == 0 && w[i] == '+') {
        lemma_no_digits(w, i);
        if w[0] == '+' && i > 0 {
            assert(w.skip(1)[i - 1] == w[i]);
            lemma_no_digits(w.skip(1), i - 1);
        }
    }
    if w.len() > 0 && w[0] == '+' {
        lemma_no_digits(w, 0);
    }
}

proof fn lemma_no_digits(d: Seq<char>, i: int)
    requires
        0 <= i < d.len(),
        !('0' <= d[i] <= '9'),
    ensures
        digits_value(d) is None,
    decreases d.len(),
{
    if i < d.len() - 1 {
        assert(d.drop_last()[i] == d[i]);
        lemma_no_digits(d.drop_last(), i);
    }
}

} // verus!
