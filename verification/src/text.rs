//! Building the text of messages.

use crate::value::ValueType;
use vstd::prelude::*;
use vstd::string::StringExecFns;

verus! {

/// The character of a decimal digit.
pub open spec fn digit_char(d: nat) -> char {
    if d == 0 {
        '0'
    } else if d == 1 {
        '1'
    } else if d == 2 {
        '2'
    } else if d == 3 {
        '3'
    } else if d == 4 {
        '4'
    } else if d == 5 {
        '5'
    } else if d == 6 {
        '6'
    } else if d == 7 {
        '7'
    } else if d == 8 {
        '8'
    } else {
        '9'
    }
}

/// A number written in decimal digits, without leading zeros.
pub open spec fn decimal(n: nat) -> Seq<char>
    decreases n,
{
    if n < 10 {
        seq![digit_char(n)]
    } else {
        decimal(n / 10).push(digit_char(n % 10))
    }
}

/// The text of one decimal digit.
fn digit_text(d: usize) -> (r: &'static str)
    requires
        d < 10,
    ensures
        r@ == seq![digit_char(d as nat)],
{
    proof {
        reveal_strlit("0");
        reveal_strlit("1");
        reveal_strlit("2");
        reveal_strlit("3");
        reveal_strlit("4");
        reveal_strlit("5");
        reveal_strlit("6");
        reveal_strlit("7");
        reveal_strlit("8");
        reveal_strlit("9");
    }
    let r = if d == 0 {
        "0"
    } else if d == 1 {
        "1"
    } else if d == 2 {
        "2"
    } else if d == 3 {
        "3"
    } else if d == 4 {
        "4"
    } else if d == 5 {
        "5"
    } else if d == 6 {
        "6"
    } else if d == 7 {
        "7"
    } else if d == 8 {
        "8"
    } else {
        "9"
    };
    proof {
        assert(r@ =~= seq![digit_char(d as nat)]);
    }
    r
}

/// The digits of a number from the last to the first.
pub open spec fn digits_reversed(n: nat) -> Seq<nat>
    decreases n,
{
    if n < 10 {
        seq![n]
    } else {
        seq![n % 10] + digits_reversed(n / 10)
    }
}

/// The characters of the last `k` of the digits given from the last to
/// the first, written from the first to the last.
pub open spec fn written(digits: Seq<nat>, k: int) -> Seq<char>
    decreases k,
{
    if k <= 0 {
        Seq::empty()
    } else {
        written(digits, k - 1).push(digit_char(digits[digits.len() - k]))
    }
}

/// Writing all the digits of a number gives the number in decimal.
pub proof fn lemma_written(n: nat)
    ensures
        written(digits_reversed(n), digits_reversed(n).len() as int) == decimal(n),
    decreases n,
{
    let digits = digits_reversed(n);
    if n < 10 {
        assert(written(digits, 0) =~= Seq::<char>::empty());
        assert(written(digits, 1) =~= seq![digit_char(n)]);
    } else {
        let rest = digits_reversed(n / 10);
        lemma_written(n / 10);
        lemma_written_suffix(digits, rest, rest.len() as int);
        assert(digits.len() == rest.len() + 1);
        assert(digits[0] == n % 10);
    }
}

/// Writing the last digits does not depend on the digits before them.
pub proof fn lemma_written_suffix(digits: Seq<nat>, rest: Seq<nat>, k: int)
    requires
        digits.len() == rest.len() + 1,
        forall|j: int| 0 <= j < rest.len() ==> rest[j] == digits[j + 1],
        0 <= k <= rest.len(),
    ensures
        written(digits, k) == written(rest, k),
    decreases k,
{
    if k > 0 {
        lemma_written_suffix(digits, rest, k - 1);
    }
}

/// A number in decimal digits: see [`decimal`].
pub fn decimal_text(n: usize) -> (r: String)
    ensures
        r@ == decimal(n as nat),
{
    decimal_text_long(n as u64)
}

/// A number of 64 bits in decimal digits: see [`decimal`].
pub fn decimal_text_long(n: u64) -> (r: String)
    ensures
        r@ == decimal(n as nat),
{
    let mut digits: Vec<usize> = Vec::new();
    let mut left = n;
    while left >= 10
        invariant
            digits_reversed(n as nat) == digits@.map_values(|d: usize| d as nat) + digits_reversed(
                left as nat,
            ),
            forall|j: int| 0 <= j < digits@.len() ==> digits@[j] < 10,
        decreases left,
    {
        let ghost before = digits@.map_values(|d: usize| d as nat);
        digits.push((left % 10) as usize);
        proof {
            assert(digits@.map_values(|d: usize| d as nat) =~= before.push((left % 10) as nat));
            assert(before + digits_reversed(left as nat) =~= before.push((left % 10) as nat)
                + digits_reversed((left / 10) as nat));
        }
        left = left / 10;
    }
    let ghost before = digits@.map_values(|d: usize| d as nat);
    digits.push(left as usize);
    proof {
        assert(digits@.map_values(|d: usize| d as nat) =~= before.push(left as nat));
        assert(before + digits_reversed(left as nat) =~= before.push(left as nat));
        lemma_written(n as nat);
    }
    let ghost all = digits_reversed(n as nat);
    let mut text = String::new();
    let mut k: usize = digits.len();
    proof {
        assert(text@ =~= written(all, 0));
    }
    while k > 0
        invariant
            k <= digits@.len(),
            all == digits@.map_values(|d: usize| d as nat),
            forall|j: int| 0 <= j < digits@.len() ==> digits@[j] < 10,
            text@ == written(all, digits@.len() - k),
        decreases k,
    {
        k -= 1;
        text.append(digit_text(digits[k]));
        proof {
            assert(all[k as int] == digits@[k as int] as nat);
            assert(text@ =~= written(all, digits@.len() - k));
        }
    }
    text
}

/// The extents from a place on, separated by a comma and a blank.
pub open spec fn dims_from(dims: Seq<usize>, n: int) -> Seq<char>
    decreases n,
{
    if n <= 0 {
        Seq::empty()
    } else if n == 1 {
        decimal(dims[0] as nat)
    } else {
        dims_from(dims, n - 1) + ", "@ + decimal(dims[n - 1] as nat)
    }
}

/// The extents of a shape as they are written in messages, such as
/// `[2, 3]`.
pub open spec fn dims_spec(dims: Seq<usize>) -> Seq<char> {
    "["@ + dims_from(dims, dims.len() as int) + "]"@
}

/// The extents of a shape as text: see [`dims_spec`].
pub fn dims_text(dims: &Vec<usize>) -> (r: String)
    ensures
        r@ == dims_spec(dims@),
{
    let mut text = "[".to_owned();
    let mut i: usize = 0;
    proof {
        assert(text@ =~= "["@ + dims_from(dims@, 0));
    }
    while i < dims.len()
        invariant
            i <= dims@.len(),
            text@ == "["@ + dims_from(dims@, i as int),
        decreases dims@.len() - i,
    {
        if i > 0 {
            text.append(", ");
        }
        text.append(decimal_text(dims[i]).as_str());
        proof {
            assert(text@ =~= "["@ + dims_from(dims@, i + 1));
        }
        i += 1;
    }
    text.append("]");
    text
}

/// A type descriptor as it is written in messages, such as `INT`,
/// `VECTOR[3]` or `MATRIX[2, 2]`.
pub open spec fn type_spec(value_type: ValueType) -> Seq<char> {
    match value_type {
        ValueType::Float => "FLOAT"@,
        ValueType::Int => "INT"@,
        ValueType::String => "STRING"@,
        ValueType::Bool => "BOOL"@,
        ValueType::Vector(dim) => "VECTOR["@ + decimal(dim as nat) + "]"@,
        ValueType::Matrix(rows, cols) => "MATRIX["@ + decimal(rows as nat) + ", "@ + decimal(
            cols as nat,
        ) + "]"@,
        ValueType::Null => "NULL"@,
    }
}

/// A type descriptor as text: see [`type_spec`].
pub fn type_text(value_type: &ValueType) -> (r: String)
    ensures
        r@ == type_spec(*value_type),
{
    match value_type {
        ValueType::Float => "FLOAT".to_owned(),
        ValueType::Int => "INT".to_owned(),
        ValueType::String => "STRING".to_owned(),
        ValueType::Bool => "BOOL".to_owned(),
        ValueType::Vector(dim) => {
            let mut text = "VECTOR[".to_owned();
            text.append(decimal_text(*dim).as_str());
            text.append("]");
            text
        },
        ValueType::Matrix(rows, cols) => {
            let mut text = "MATRIX[".to_owned();
            text.append(decimal_text(*rows).as_str());
            text.append(", ");
            text.append(decimal_text(*cols).as_str());
            text.append("]");
            text
        },
        ValueType::Null => "NULL".to_owned(),
    }
}

} // verus!
