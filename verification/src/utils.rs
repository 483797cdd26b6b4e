use vstd::prelude::*;
use vstd::string::StringExecFns;

verus! {

/// Element-wise comparison of two byte slices.
pub fn compare_arrays(a: &[u8], b: &[u8]) -> (r: bool)
    ensures
        r == (a@ == b@),
{
    if a.len() != b.len() {
        return false;
    }
    let n = a.len();
    let mut i: usize = 0;
    while i < n
        invariant
            n == a@.len() == b@.len(),
            0 <= i <= n,
            forall|j: int| 0 <= j < i ==> a@[j] == b@[j],
        decreases n - i,
    {
        if a[i] != b[i] {
            return false;
        }
        i += 1;
    }
    proof {
        assert(a@ =~= b@);
    }
    true
}

/// Whether the regions `[src, src + src_len)` and `[dst, dst + dst_len)` are disjoint.
pub fn is_nonoverlapping(src: usize, src_len: usize, dst: usize, dst_len: usize) -> (r: bool)
    requires
        src + src_len <= usize::MAX,
        dst + dst_len <= usize::MAX,
    ensures
        r == (src + src_len <= dst || dst + dst_len <= src),
{
    if src > dst {
        src - dst >= dst_len
    } else if dst > src {
        dst - src >= src_len
    } else {
        src_len == 0 || dst_len == 0
    }
}

pub const DIGITS: [char; 16] = ['0', '1', '2', '3', '4', '5', '6', '7', '8', '9', 'a', 'b', 'c', 'd', 'e', 'f'];

/// Decimal rendering of a number, most significant digit first.
pub open spec fn spec_u64_string(n: nat) -> Seq<char>
    decreases n,
{
    if n < 10 {
        seq![DIGITS@[n as int]]
    } else {
        spec_u64_string(n / 10) + seq![DIGITS@[(n % 10) as int]]
    }
}

/// Hexadecimal rendering of a number without prefix, most significant digit first.
pub open spec fn spec_u64_hex_digits(n: nat) -> Seq<char>
    decreases n,
{
    if n < 16 {
        seq![DIGITS@[n as int]]
    } else {
        spec_u64_hex_digits(n / 16) + seq![DIGITS@[(n % 16) as int]]
    }
}

fn digit_char(d: u64) -> (r: String)
    requires
        d < 16,
    ensures
        r@ =~= seq![DIGITS@[d as int]],
{
    proof {
        reveal_strlit("0");
        reveal_strlit("1");
        reveal_strlit("2");
        reveal_strlit("3");
        reveal_strlit("4");
        reveal_strlit("5");
        reveal_strlit("6");
        reveal_strlit("7");
        reveal_strlit("8");
        reveal_strlit("9");
        reveal_strlit("a");
        reveal_strlit("b");
        reveal_strlit("c");
        reveal_strlit("d");
        reveal_strlit("e");
        reveal_strlit("f");
    }
    if d == 0 {
        String::from_str("0")
    } else if d == 1 {
        String::from_str("1")
    } else if d == 2 {
        String::from_str("2")
    } else if d == 3 {
        String::from_str("3")
    } else if d == 4 {
        String::from_str("4")
    } else if d == 5 {
        String::from_str("5")
    } else if d == 6 {
        String::from_str("6")
    } else if d == 7 {
        String::from_str("7")
    } else if d == 8 {
        String::from_str("8")
    } else if d == 9 {
        String::from_str("9")
    } else if d == 10 {
        String::from_str("a")
    } else if d == 11 {
        String::from_str("b")
    } else if d == 12 {
        String::from_str("c")
    } else if d == 13 {
        String::from_str("d")
    } else if d == 14 {
        String::from_str("e")
    } else if d == 15 {
        String::from_str("f")
    } else {
        String::from_str("0")
    }
}

/// Renders `n` in decimal.
pub fn u64_to_string(n: u64) -> (r: String)
    ensures
        r@ == spec_u64_string(n as nat),
    decreases n,
{
    if n < 10 {
        digit_char(n)
    } else {
        let mut s = u64_to_string(n / 10);
        let d = digit_char(n % 10);
        s.append(d.as_str());
        s
    }
}

/// Renders `n` as `0x`-prefixed hexadecimal.
pub fn u64_to_hex_string(n: u64) -> (r: String)
    ensures
        r@ == "0x"@ + spec_u64_hex_digits(n as nat),
{
    let mut s = String::from_str("0x");
    let d = u64_hex_digits(n);
    s.append(d.as_str());
    s
}

fn u64_hex_digits(n: u64) -> (r: String)
    ensures
        r@ == spec_u64_hex_digits(n as nat),
    decreases n,
{
    if n < 16 {
        digit_char(n)
    } else {
        let mut s = u64_hex_digits(n / 16);
        let d = digit_char(n % 16);
        s.append(d.as_str());
        s
    }
}

pub const DEFAULT_LAMPORTS_PER_BYTE_YEAR: u64 = 1_000_000_000 / 100 * 365 / (1024 * 1024);

pub const DEFAULT_EXEMPTION_THRESHOLD: u64 = 2;

/// Balance unit conversion: whole tokens to lamports.
pub fn sol_to_lamports(sol: u64) -> (r: u64)
    requires
        sol * 1_000_000_000 <= u64::MAX,
    ensures
        r == sol * 1_000_000_000,
{
    sol * 1_000_000_000
}

/// The minimum balance that exempts an account of `size` data bytes from rent,
/// at the default cluster parameters.
pub open spec fn spec_rent_exempt_for_size(size: nat) -> nat {
    (DEFAULT_LAMPORTS_PER_BYTE_YEAR * DEFAULT_EXEMPTION_THRESHOLD) as nat * size
}

pub fn rent_exempt_for_size(size: usize) -> (r: u64)
    requires
        spec_rent_exempt_for_size(size as nat) <= u64::MAX,
    ensures
        r == spec_rent_exempt_for_size(size as nat),
{
    DEFAULT_LAMPORTS_PER_BYTE_YEAR * DEFAULT_EXEMPTION_THRESHOLD * (size as u64)
}

} // verus!
