use vstd::prelude::*;

use vstd::string::StringExecFns;

verus! {

/// The character of decimal digit `d`.
pub open spec fn digit_char(d: int) -> char {
    ((d + 48) as u32) as char
}

/// The decimal notation of `n`, without leading zeros (`"0"` for zero), as
/// `{}` formats an unsigned integer.
pub open spec fn decimal(n: nat) -> Seq<char>
    decreases n,
{
    if n < 10 {
        seq![digit_char(n as int)]
    } else {
        decimal(n / 10).push(digit_char((n % 10) as int))
    }
}

fn digit_str(d: u64) -> (s: &'static str)
    requires
        d < 10,
    ensures
        s@ == seq![digit_char(d as int)],
{
    proof {
        reveal_strlit("0");
        reveal_strlit("1");
        reveal_strlit("2");
        reveal_strlit("3");
        reveal_strlit("4");
        reveal_strlit("5");
        reveal_strlit("6");
        reveal_strlit("7");
        reveal_strlit("8");
        reveal_strlit("9");
    }
    if d == 0 {
        "0"
    } else if d == 1 {
        "1"
    } else if d == 2 {
        "2"
    } else if d == 3 {
        "3"
    } else if d == 4 {
        "4"
    } else if d == 5 {
        "5"
    } else if d == 6 {
        "6"
    } else if d == 7 {
        "7"
    } else if d == 8 {
        "8"
    } else {
        "9"
    }
}

/// Appends the decimal notation of `n` to `out`.
pub(crate) fn push_decimal(out: &mut String, n: u64)
    ensures
        final(out)@ == old(out)@ + decimal(n as nat),
    decreases n,
{
    if n >= 10 {
        push_decimal(out, n / 10);
    }
    out.append(digit_str(n % 10));
    assert(decimal(n as nat) =~= if n < 10 {
        seq![digit_char(n as int)]
    } else {
        decimal((n / 10) as nat).push(digit_char((n % 10) as int))
    });
}

/// The decimal notation of `n` as a string.
pub fn decimal_string(n: u64) -> (s: String)
    ensures
        s@ == decimal(n as nat),
{
    let mut s = String::new();
    push_decimal(&mut s, n);
    assert(s@ =~= decimal(n as nat));
    s
}

/// The name of field `field` of element `index` of the uniform array
/// `array`, as GLSL spells it: `array[index].field`, such as
/// `pointLights[2].diffuse`.
pub fn uniform_array_field(array: &str, index: u64, field: &str) -> (name: String)
    ensures
        name@ == array@ + seq!['['] + decimal(index as nat) + seq![']', '.'] + field@,
{
    proof {
        reveal_strlit("[");
        reveal_strlit("].");
    }
    let mut name = String::from_str(array);
    name.append("[");
    push_decimal(&mut name, index);
    name.append("].");
    name.append(field);
    assert(name@ =~= array@ + seq!['['] + decimal(index as nat) + seq![']', '.'] + field@);
    name
}

/// The file a model texture is read from: `path` inside `directory`,
/// joined with a slash.
pub fn texture_file_path(directory: &str, path: &str) -> (file: String)
    ensures
        file@ == directory@ + seq!['/'] + path@,
{
    proof {
        reveal_strlit("/");
    }
    let mut file = String::from_str(directory);
    file.append("/");
    file.append(path);
    assert(file@ =~= directory@ + seq!['/'] + path@);
    file
}

} // verus!
