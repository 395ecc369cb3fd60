//! Names of directories and files: zero-padded decimal identifiers and path
//! joining.
use vstd::prelude::*;
use vstd::string::*;

verus! {

/// The character of a decimal digit.
pub open spec fn digit_char(d: nat) -> char {
    (48 + d) as char
}

/// The decimal representation of `n`, without leading zeros.
pub open spec fn decimal(n: nat) -> Seq<char>
    decreases n,
{
    if n < 10 {
        seq![digit_char(n)]
    } else {
        decimal(n / 10).push(digit_char(n % 10))
    }
}

/// The decimal representation of `n`, padded with leading zeros to `width`
/// characters (`format!("{:0width$}", n)`).
pub open spec fn zero_padded(n: nat, width: nat) -> Seq<char> {
    let d = decimal(n);
    if d.len() >= width {
        d
    } else {
        Seq::new((width - d.len()) as nat, |i: int| '0') + d
    }
}

/// The number of decimal digits of `n` is `ilog10(n) + 1` for `n > 0`:
/// `10^(len - 1) <= n < 10^len`.
pub open spec fn pow10(k: nat) -> nat
    decreases k,
{
    if k == 0 { 1 } else { 10 * pow10((k - 1) as nat) }
}

/// `path` extended by `name` as `PathBuf::push` does: an absolute `name`
/// (starting with `/`) replaces the path; otherwise a `/` separator is
/// inserted unless `path` is empty or already ends with one.
pub open spec fn joined(path: Seq<char>, name: Seq<char>) -> Seq<char> {
    if name.len() > 0 && name[0] == '/' {
        name
    } else if path.len() == 0 || path.last() == '/' {
        path + name
    } else {
        path + seq!['/'] + name
    }
}

/// The string of one decimal digit.
fn digit_str(d: u64) -> (s: &'static str)
    requires
        d < 10,
    ensures
        s@ == seq![digit_char(d as nat)],
{
    proof {
        reveal_strlit("0");
        reveal_strlit("1");
        reveal_strlit("2");
        reveal_strlit("3");
        reveal_strlit("4");
        reveal_strlit("5");
        reveal_strlit("6");
        reveal_strlit("7");
        reveal_strlit("8");
        reveal_strlit("9");
    }
    let s = match d {
        0 => "0",
        1 => "1",
        2 => "2",
        3 => "3",
        4 => "4",
        5 => "5",
        6 => "6",
        7 => "7",
        8 => "8",
        _ => "9",
    };
    assert(s@ =~= seq![digit_char(d as nat)]);
    s
}

/// Appends the decimal representation of `n` to `s`.
pub fn push_decimal(s: &mut String, n: u64)
    ensures
        final(s)@ == old(s)@ + decimal(n as nat),
    decreases n,
{
    if n >= 10 {
        push_decimal(s, n / 10);
    }
    s.append(digit_str(n % 10));
    assert(n >= 10 ==> decimal(n as nat) == decimal((n / 10) as nat).push(digit_char((n % 10) as nat)));
}

/// The number of decimal digits of `n`, `ilog10(n) + 1` for `n > 0`.
pub fn decimal_width(n: u64) -> (w: u32)
    ensures
        w == decimal(n as nat).len(),
        1 <= w <= 20,
    decreases n,
{
    if n >= 10 {
        proof { lemma_decimal_len(n as nat); }
        decimal_width(n / 10) + 1
    } else {
        proof { lemma_decimal_len(n as nat); }
        1
    }
}

/// The decimal representation of `n` has between one and twenty digits.
pub proof fn lemma_decimal_len(n: nat)
    requires
        n <= u64::MAX,
    ensures
        1 <= decimal(n).len() <= 20,
{
    lemma_decimal_nonempty(n);
    reveal_with_fuel(pow10, 21);
    assert(pow10(20) == 100000000000000000000nat);
    lemma_decimal_len_pow(n, 20);
}

/// A decimal representation has at least one digit.
proof fn lemma_decimal_nonempty(n: nat)
    ensures
        decimal(n).len() >= 1,
    decreases n,
{
    if n >= 10 {
        lemma_decimal_nonempty(n / 10);
    }
}

/// `n < 10^k` implies `decimal(n)` has at most `k` digits.
proof fn lemma_decimal_len_pow(n: nat, k: nat)
    requires
        k >= 1,
        n < pow10(k),
    ensures
        decimal(n).len() <= k,
    decreases k,
{
    if n >= 10 {
        assert(n / 10 < pow10((k - 1) as nat));
        lemma_decimal_len_pow(n / 10, (k - 1) as nat);
    }
}

/// Appends `n` zero-padded to `width` characters.
pub fn push_zero_padded(s: &mut String, n: u64, width: usize)
    ensures
        final(s)@ == old(s)@ + zero_padded(n as nat, width as nat),
{
    let w = decimal_width(n);
    let mut k: usize = w as usize;
    let ghost start = s@;
    proof { reveal_strlit("0"); }
    while k < width
        invariant
            w as nat == decimal(n as nat).len(),
            w <= k,
            k <= w || k <= width,
            s@ == start + Seq::new((k - w) as nat, |i: int| '0'),
        decreases width - k,
    {
        proof { reveal_strlit("0"); }
        s.append("0");
        assert(start + Seq::new((k + 1 - w) as nat, |i: int| '0') =~= start + Seq::new((k - w) as nat, |i: int| '0') + seq!['0']);
        k = k + 1;
    }
    let ghost padded = s@;
    push_decimal(s, n);
    assert(Seq::new((k - w) as nat, |i: int| '0') + decimal(n as nat) =~= zero_padded(n as nat, width as nat));
    assert(s@ =~= start + zero_padded(n as nat, width as nat));
}

/// Appends `name` to the path `path` as a new component.
pub fn push_component(path: &mut String, name: &str)
    ensures
        final(path)@ == joined(old(path)@, name@),
{
    let m = name.unicode_len();
    if m > 0 && name.get_char(0) == '/' {
        *path = String::from_str(name);
        return;
    }
    let n = path.as_str().unicode_len();
    if n == 0 || path.as_str().get_char(n - 1) == '/' {
        path.append(name);
    } else {
        proof { reveal_strlit("/"); }
        path.append("/");
        path.append(name);
    }
}

/// `prefix` followed by `id` zero-padded to `width` digits
/// (`format!("{}{:0width$}", prefix, id)`).
pub open spec fn component(prefix: Seq<char>, id: nat, width: nat) -> Seq<char> {
    prefix + zero_padded(id, width)
}

/// The name `prefix` followed by `id` zero-padded to `width` digits.
pub fn component_name(prefix: &str, id: u64, width: usize) -> (s: String)
    ensures
        s@ == component(prefix@, id as nat, width as nat),
{
    let mut s = String::from_str(prefix);
    push_zero_padded(&mut s, id, width);
    s
}

} // verus!
