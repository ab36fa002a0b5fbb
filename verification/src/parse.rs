//! The text in which a partition is asked for on the command line.
//!
//! A partition is a list of `key=value` fields with commas between
//! them, such as `t=esp,so=1048576,eo=2097152`. The key `t` gives the
//! kind of the partition, `so` the byte offset at which it starts, and
//! `eo` the byte offset at which it ends. All three must be there. A
//! field with another key, or without `=`, is passed over; of two
//! fields with the same key the later one counts.

use vstd::prelude::*;
use vstd::slice::slice_subrange;
use crate::err::BobErr;
use crate::gpt::{PartitionBuilder, PartitionInput, PartitionType};

verus! {

/// The place of the first `c` in `s`, or -1 where there is none.
pub open spec fn find(s: Seq<char>, c: char) -> int
    decreases s.len(),
{
    if s.len() == 0 {
        -1
    } else if s[0] == c {
        0
    } else {
        let r = find(s.skip(1), c);
        if r < 0 {
            -1
        } else {
            r + 1
        }
    }
}

/// Whether `c` is white space as Unicode defines it.
pub open spec fn is_whitespace(c: char) -> bool {
    let cp = c as u32;
    ||| 0x09 <= cp <= 0x0D
    ||| cp == 0x20
    ||| cp == 0x85
    ||| cp == 0xA0
    ||| cp == 0x1680
    ||| 0x2000 <= cp <= 0x200A
    ||| cp == 0x2028
    ||| cp == 0x2029
    ||| cp == 0x202F
    ||| cp == 0x205F
    ||| cp == 0x3000
}

/// `s` without the white space at its start.
pub open spec fn trim_start(s: Seq<char>) -> Seq<char>
    decreases s.len(),
{
    if s.len() > 0 && is_whitespace(s[0]) {
        trim_start(s.skip(1))
    } else {
        s
    }
}

/// `s` without the white space at its end.
pub open spec fn trim_end(s: Seq<char>) -> Seq<char>
    decreases s.len(),
{
    if s.len() > 0 && is_whitespace(s.last()) {
        trim_end(s.drop_last())
    } else {
        s
    }
}

/// `s` without the white space at either end.
pub open spec fn trim(s: Seq<char>) -> Seq<char> {
    trim_end(trim_start(s))
}

/// Whether `c` is one of the digits 0 to 9.
pub open spec fn is_digit(c: char) -> bool {
    0x30 <= c as u32 <= 0x39
}

/// Whether `s` holds digits only.
pub open spec fn all_digits(s: Seq<char>) -> bool {
    forall|i: int| 0 <= i < s.len() ==> is_digit(#[trigger] s[i])
}

/// The number that the digits of `s` write in base ten.
pub open spec fn digits_value(s: Seq<char>) -> nat
    decreases s.len(),
{
    if s.len() == 0 {
        0
    } else {
        (digits_value(s.drop_last()) * 10 + (s.last() as u32 - 0x30)) as nat
    }
}

/// The number that `s` writes: one or more digits, after a plus sign
/// or without, as long as the number is one that `usize` holds.
pub open spec fn parse_usize(s: Seq<char>) -> Option<usize> {
    let digits = if s.len() > 0 && s[0] == '+' {
        s.skip(1)
    } else {
        s
    };
    if digits.len() == 0 || !all_digits(digits) || digits_value(digits) > usize::MAX {
        None
    } else {
        Some(digits_value(digits) as usize)
    }
}

/// What one field does to the partition that is being described;
/// nothing where the field holds a number that cannot be read. The
/// offset behind `so` may stand in white space, the one behind `eo`
/// may not.
pub open spec fn apply(b: PartitionBuilder, field: Seq<char>) -> Option<PartitionBuilder> {
    let i = find(field, '=');
    if i < 0 {
        Some(b)
    } else {
        let key = field.take(i);
        let value = field.skip(i + 1);
        if key == seq!['t'] {
            Some(PartitionBuilder { pt: Some(PartitionType::EFISystem), ..b })
        } else if key == seq!['s', 'o'] {
            match parse_usize(trim(value)) {
                Some(n) => Some(PartitionBuilder { start_offset: Some(n), ..b }),
                None => None,
            }
        } else if key == seq!['e', 'o'] {
            match parse_usize(value) {
                Some(n) => Some(PartitionBuilder { end_offset: Some(n), ..b }),
                None => None,
            }
        } else {
            Some(b)
        }
    }
}

/// What the fields of `rest` do, one after the other, to the partition
/// that is being described; nothing where one of them cannot be read.
pub open spec fn run(rest: Seq<char>, b: PartitionBuilder) -> Option<PartitionBuilder>
    decreases rest.len(),
{
    let i = find(rest, ',');
    if i < 0 || i >= rest.len() {
        apply(b, rest)
    } else {
        match apply(b, rest.take(i)) {
            None => None,
            Some(next) => run(rest.skip(i + 1), next),
        }
    }
}

/// The partition that `text` asks for. An empty text, a number that
/// cannot be read and a missing field are all answered with
/// `PartitionParse`.
pub open spec fn parsed(text: Seq<char>) -> Result<PartitionInput, BobErr> {
    if text.len() == 0 {
        Err(BobErr::PartitionParse)
    } else {
        match run(text, PartitionBuilder { pt: None, start_offset: None, end_offset: None }) {
            None => Err(BobErr::PartitionParse),
            Some(b) => match (b.pt, b.start_offset, b.end_offset) {
                (Some(pt), Some(start_offset), Some(end_offset)) => Ok(
                    PartitionInput { pt, start_offset, end_offset },
                ),
                _ => Err(BobErr::PartitionParse),
            },
        }
    }
}

/// Where the first `j` characters of `s` are not `c`, the first `c` is
/// at `j` if it is there, and nowhere if `s` ends at `j`.
pub proof fn lemma_find(s: Seq<char>, c: char, j: int)
    requires
        0 <= j <= s.len(),
        forall|k: int| 0 <= k < j ==> s[k] != c,
        j < s.len() ==> s[j] == c,
    ensures
        find(s, c) == if j < s.len() {
            j
        } else {
            -1
        },
    decreases j,
{
    if j > 0 {
        let t = s.skip(1);
        assert forall|k: int| 0 <= k < j - 1 implies t[k] != c by {
            assert(t[k] == s[k + 1]);
        }
        lemma_find(t, c, j - 1);
    }
}

/// More digits never write a smaller number.
pub proof fn lemma_digits_value_grows(s: Seq<char>, n: int)
    requires
        all_digits(s),
        0 <= n <= s.len(),
    ensures
        digits_value(s.take(n)) <= digits_value(s),
    decreases s.len() - n,
{
    if n < s.len() {
        let longer = s.take(n + 1);
        assert(longer.drop_last() =~= s.take(n));
        assert(is_digit(s[n]));
        assert(longer.last() == s[n]);
        lemma_digits_value_grows(s, n + 1);
    } else {
        assert(s.take(n) =~= s);
    }
}

/// The characters of `s`.
pub fn chars_of(s: &str) -> (v: Vec<char>)
    ensures
        v@ == s@,
{
    let mut v: Vec<char> = Vec::new();
    for c in it: s.chars()
        invariant
            v@ == it.seq().take(it.index() as int),
            it.seq() == s@,
    {
        v.push(c);
        assert(it.seq().take(it.index() + 1) =~= it.seq().take(it.index() as int).push(c));
    }
    assert(v@ =~= s@);
    v
}

/// Looks for the first `c` in `s`.
pub fn find_char(s: &[char], c: char) -> (r: Option<usize>)
    ensures
        match r {
            Some(i) => i < s@.len() && find(s@, c) == i,
            None => find(s@, c) == -1,
        },
{
    let mut j: usize = 0;
    while j < s.len()
        invariant
            j <= s.len(),
            forall|k: int| 0 <= k < j ==> s@[k] != c,
        decreases s.len() - j,
    {
        if s[j] == c {
            proof {
                lemma_find(s@, c, j as int);
            }
            return Some(j);
        }
        j = j + 1;
    }
    proof {
        lemma_find(s@, c, j as int);
    }
    None
}

/// Tells whether `c` is white space.
pub fn is_space(c: char) -> (b: bool)
    ensures
        b == is_whitespace(c),
{
    let cp = c as u32;
    (0x09 <= cp && cp <= 0x0D) || cp == 0x20 || cp == 0x85 || cp == 0xA0 || cp == 0x1680 || (0x2000
        <= cp && cp <= 0x200A) || cp == 0x2028 || cp == 0x2029 || cp == 0x202F || cp == 0x205F
        || cp == 0x3000
}

/// Cuts the white space off both ends of `s`.
pub fn trimmed(s: &[char]) -> (t: &[char])
    ensures
        t@ == trim(s@),
{
    let mut a: usize = 0;
    assert(s@.skip(0) =~= s@);
    while a < s.len() && is_space(s[a])
        invariant
            a <= s.len(),
            trim_start(s@) == trim_start(s@.skip(a as int)),
        decreases s.len() - a,
    {
        proof {
            assert(s@.skip(a as int).skip(1) =~= s@.skip(a + 1));
        }
        a = a + 1;
    }
    assert(trim_start(s@) == s@.skip(a as int));
    let mut b: usize = s.len();
    assert(s@.subrange(a as int, b as int) =~= s@.skip(a as int));
    while b > a && is_space(s[b - 1])
        invariant
            a <= b <= s.len(),
            trim(s@) == trim_end(s@.subrange(a as int, b as int)),
        decreases b,
    {
        proof {
            assert(s@.subrange(a as int, b as int).drop_last() =~= s@.subrange(
                a as int,
                b - 1,
            ));
        }
        b = b - 1;
    }
    slice_subrange(s, a, b)
}

/// Reads `s` as a number.
pub fn read_usize(s: &[char]) -> (r: Option<usize>)
    ensures
        r == parse_usize(s@),
{
    let start: usize = if s.len() > 0 && s[0] == '+' {
        1
    } else {
        0
    };
    let digits = slice_subrange(s, start, s.len());
    assert(digits@ =~= if s@.len() > 0 && s@[0] == '+' {
        s@.skip(1)
    } else {
        s@
    });
    if digits.len() == 0 {
        return None;
    }
    let mut acc: usize = 0;
    let mut i: usize = 0;
    while i < digits.len()
        invariant
            i <= digits.len(),
            digits@.len() > 0,
            digits@ == if s@.len() > 0 && s@[0] == '+' {
                s@.skip(1)
            } else {
                s@
            },
            all_digits(digits@.take(i as int)),
            acc == digits_value(digits@.take(i as int)),
        decreases digits.len() - i,
    {
        let c = digits[i];
        let cp = c as u32;
        let ghost longer = digits@.take(i + 1);
        proof {
            assert(longer.drop_last() =~= digits@.take(i as int));
            assert(longer.last() == c);
        }
        if !(0x30 <= cp && cp <= 0x39) {
            assert(!is_digit(digits@[i as int]));
            assert(!all_digits(digits@));
            return None;
        }
        assert forall|k: int| 0 <= k < longer.len() implies is_digit(#[trigger] longer[k]) by {
            if k < i {
                assert(longer[k] == digits@.take(i as int)[k]);
            }
        }
        let d = (cp - 0x30) as usize;
        let next = match acc.checked_mul(10) {
            Some(tens) => tens.checked_add(d),
            None => None,
        };
        match next {
            Some(n) => {
                acc = n;
            },
            None => {
                proof {
                    assert(digits_value(longer) == acc * 10 + d);
                    assert(digits_value(longer) > usize::MAX);
                    if all_digits(digits@) {
                        lemma_digits_value_grows(digits@, i + 1);
                    }
                }
                return None;
            },
        }
        i = i + 1;
    }
    assert(digits@.take(i as int) =~= digits@);
    Some(acc)
}

/// Takes one field into the partition that is being described.
pub fn apply_field(b: PartitionBuilder, field: &[char]) -> (r: Option<PartitionBuilder>)
    ensures
        r == apply(b, field@),
{
    let i = match find_char(field, '=') {
        Some(i) => i,
        None => {
            return Some(b);
        },
    };
    assert(i < field.len());
    let key = slice_subrange(field, 0, i);
    let value = slice_subrange(field, i + 1, field.len());
    assert(key@ =~= field@.take(i as int));
    assert(value@ =~= field@.skip(i + 1));
    if key.len() == 1 && key[0] == 't' {
        assert(key@ =~= seq!['t']);
        Some(b.partition_type(PartitionType::EFISystem))
    } else if key.len() == 2 && key[0] == 's' && key[1] == 'o' {
        assert(key@ =~= seq!['s', 'o']);
        assert(key@ != seq!['t']);
        match read_usize(trimmed(value)) {
            Some(n) => Some(b.start_offset(n)),
            None => None,
        }
    } else if key.len() == 2 && key[0] == 'e' && key[1] == 'o' {
        assert(key@ =~= seq!['e', 'o']);
        assert(key@ != seq!['t']);
        assert(key@[0] != seq!['s', 'o'][0]);
        match read_usize(value) {
            Some(n) => Some(b.end_offset(n)),
            None => None,
        }
    } else {
        assert(key@ != seq!['t']) by {
            if key@ == seq!['t'] {
                assert(key@.len() == 1 && key@[0] == seq!['t'][0]);
            }
        }
        assert(key@ != seq!['s', 'o']) by {
            if key@ == seq!['s', 'o'] {
                assert(key@.len() == 2 && key@[0] == seq!['s', 'o'][0] && key@[1] == seq![
                    's',
                    'o',
                ][1]);
            }
        }
        assert(key@ != seq!['e', 'o']) by {
            if key@ == seq!['e', 'o'] {
                assert(key@.len() == 2 && key@[0] == seq!['e', 'o'][0] && key@[1] == seq![
                    'e',
                    'o',
                ][1]);
            }
        }
        Some(b)
    }
}

/// Reads the description of a partition.
pub fn parse_partition(text: &str) -> (res: Result<PartitionInput, BobErr>)
    ensures
        res == parsed(text@),
{
    let chars = chars_of(text);
    if chars.len() == 0 {
        return Err(BobErr::PartitionParse);
    }
    let ghost blank = PartitionBuilder { pt: None, start_offset: None, end_offset: None };
    let mut b = PartitionBuilder::new();
    let mut rest: &[char] = chars.as_slice();
    let mut done = false;
    while !done
        invariant
            text@.len() > 0,
            blank == (PartitionBuilder { pt: None, start_offset: None, end_offset: None }),
            !done ==> run(rest@, b) == run(text@, blank),
            done ==> Some(b) == run(text@, blank),
        decreases rest@.len() + (if done { 0int } else { 1int }),
    {
        match find_char(rest, ',') {
            Some(i) => {
                assert(i < rest.len());
                let field = slice_subrange(rest, 0, i);
                assert(field@ =~= rest@.take(i as int));
                match apply_field(b, field) {
                    Some(next) => {
                        b = next;
                    },
                    None => {
                        return Err(BobErr::PartitionParse);
                    },
                }
                let after = slice_subrange(rest, i + 1, rest.len());
                assert(after@ =~= rest@.skip(i + 1));
                rest = after;
            },
            None => {
                match apply_field(b, rest) {
                    Some(next) => {
                        b = next;
                    },
                    None => {
                        return Err(BobErr::PartitionParse);
                    },
                }
                done = true;
            },
        }
    }
    b.build()
}

} // verus!
