//! Small helpers on text: comparing, numbers in decimal, cutting a field
//! out of a line, and the genitive of a name.

use vstd::prelude::*;
use vstd::string::*;

verus! {

/// Whether two texts hold the same characters.
pub fn same_text(a: &str, b: &str) -> (same: bool)
    ensures
        same == (a@ == b@),
{
    let left = a.to_owned();
    let right = b.to_owned();
    left == right
}

/// The ten digits.
pub open spec fn digits() -> Seq<char> {
    seq!['0', '1', '2', '3', '4', '5', '6', '7', '8', '9']
}

/// `n` written in decimal, without leading zeros.
pub open spec fn decimal(n: nat) -> Seq<char>
    decreases n,
{
    if n < 10 {
        seq![digits()[n as int]]
    } else {
        decimal(n / 10).push(digits()[(n % 10) as int])
    }
}

/// The digit `d` as text.
fn digit_text(d: usize) -> (text: &'static str)
    requires
        d < 10,
    ensures
        text@ == seq![digits()[d as int]],
{
    proof {
        reveal_strlit("0");
        reveal_strlit("1");
        reveal_strlit("2");
        reveal_strlit("3");
        reveal_strlit("4");
        reveal_strlit("5");
        reveal_strlit("6");
        reveal_strlit("7");
        reveal_strlit("8");
        reveal_strlit("9");
    }
    let text = match d {
        0 => "0",
        1 => "1",
        2 => "2",
        3 => "3",
        4 => "4",
        5 => "5",
        6 => "6",
        7 => "7",
        8 => "8",
        _ => "9",
    };
    assert(text@ =~= seq![digits()[d as int]]);
    text
}

/// `n` written in decimal, without leading zeros.
pub fn decimal_text(n: usize) -> (text: String)
    ensures
        text@ == decimal(n as nat),
    decreases n,
{
    if n < 10 {
        String::from_str(digit_text(n))
    } else {
        let mut text = decimal_text(n / 10);
        text.append(digit_text(n % 10));
        assert(text@ =~= decimal(n as nat));
        text
    }
}

/// `field` is what stands in `line` before its first comma: all of `line`
/// where it holds no comma.
pub open spec fn is_first_field(line: Seq<char>, field: Seq<char>) -> bool {
    &&& field.len() <= line.len()
    &&& field == line.take(field.len() as int)
    &&& !field.contains(',')
    &&& field.len() == line.len() || line[field.len() as int] == ','
}

/// What stands in `line` before its first comma.
pub fn first_field(line: &str) -> (field: String)
    ensures
        is_first_field(line@, field@),
{
    let n = line.unicode_len();
    let mut end: usize = 0;
    while end < n && line.get_char(end) != ','
        invariant
            n == line@.len(),
            end <= n,
            forall|k: int| 0 <= k < end ==> line@[k] != ',',
        decreases n - end,
    {
        end += 1;
    }
    let field = String::from_str(line.substring_char(0, end));
    proof {
        assert(field@ =~= line@.take(end as int));
        assert(!field@.contains(',')) by {
            if field@.contains(',') {
                let k = choose|k: int| 0 <= k < field@.len() && field@[k] == ',';
                assert(line@[k] == ',');
            }
        }
    }
    field
}

/// The Danish genitive of `name`: an apostrophe after a final `s`, `x` or
/// `z`, and an `s` after anything else.
pub open spec fn genitive(name: Seq<char>) -> Seq<char> {
    if name.len() > 0 && (name.last() == 's' || name.last() == 'x' || name.last() == 'z') {
        name.push('\'')
    } else {
        name.push('s')
    }
}

/// The Danish genitive of `name`.
pub fn da_genitive(name: &str) -> (owner: String)
    ensures
        owner@ == genitive(name@),
{
    proof {
        reveal_strlit("'");
        reveal_strlit("s");
    }
    let n = name.unicode_len();
    let mut owner = String::from_str(name);
    let sibilant = if n > 0 {
        let last = name.get_char(n - 1);
        last == 's' || last == 'x' || last == 'z'
    } else {
        false
    };
    if sibilant {
        owner.append("'");
    } else {
        owner.append("s");
    }
    assert(owner@ =~= genitive(name@));
    owner
}

} // verus!
