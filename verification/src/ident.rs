//! Identity resolution: the stable account id is derived from the
//! case-insensitively folded username, and index entries are matched
//! ASCII-case-insensitively.
use vstd::prelude::*;

verus! {

/// What `str::to_lowercase` returns for a given character sequence.
pub uninterp spec fn lower_of(s: Seq<char>) -> Seq<char>;

/// The 16-byte MD5 digest of a string's bytes.
pub uninterp spec fn md5_digest_of(s: Seq<char>) -> Seq<u8>;

/// What `str::trim` returns for a given character sequence.
pub uninterp spec fn trim_of(s: Seq<char>) -> Seq<char>;

/// The character's code with ASCII uppercase letters folded to lowercase.
pub open spec fn ascii_lower_code(c: char) -> int {
    if 'A' <= c && c <= 'Z' {
        c as int + 32
    } else {
        c as int
    }
}

/// ASCII case-insensitive equality of two character sequences: equal length
/// and, position by position, equal characters once ASCII uppercase letters
/// are folded to lowercase.
pub open spec fn ascii_eq(a: Seq<char>, b: Seq<char>) -> bool {
    &&& a.len() == b.len()
    &&& forall|i: int| 0 <= i < a.len() ==> ascii_lower_code(a[i]) == ascii_lower_code(b[i])
}

/// `ascii_eq` is symmetric.
pub proof fn lemma_ascii_eq_sym(a: Seq<char>, b: Seq<char>)
    requires
        ascii_eq(a, b),
    ensures
        ascii_eq(b, a),
{
}

/// `ascii_eq` is transitive; folding is applied position by position.
pub proof fn lemma_ascii_eq_trans(a: Seq<char>, b: Seq<char>, c: Seq<char>)
    requires
        ascii_eq(a, b),
        ascii_eq(b, c),
    ensures
        ascii_eq(a, c),
{
}

/// Relies on `str::eq_ignore_ascii_case`: true exactly when the two strings
/// are equal after folding ASCII uppercase letters to lowercase.
#[verifier::external_body]
pub fn eq_ignore_ascii_case(a: &str, b: &str) -> (r: bool)
    ensures
        r == ascii_eq(a@, b@),
{
    a.eq_ignore_ascii_case(b)
}

/// Relies on `str::to_lowercase`: the result is a function of the characters
/// alone, and an empty string stays empty.
#[verifier::external_body]
fn to_lowercase(s: &str) -> (r: String)
    ensures
        r@ == lower_of(s@),
        s@.len() == 0 ==> r@.len() == 0,
{
    s.to_lowercase()
}

/// Relies on `md5::compute`: the 16-byte digest of the string's bytes, a
/// function of the characters alone.
#[verifier::external_body]
fn md5_digest(s: &str) -> (r: Vec<u8>)
    ensures
        r@ == md5_digest_of(s@),
        r@.len() == 16,
{
    md5::compute(s.as_bytes()).0.to_vec()
}

/// The lowercase hexadecimal digit for a value below sixteen.
pub open spec fn hex_digit(v: u8) -> char {
    if v == 0 {
        '0'
    } else if v == 1 {
        '1'
    } else if v == 2 {
        '2'
    } else if v == 3 {
        '3'
    } else if v == 4 {
        '4'
    } else if v == 5 {
        '5'
    } else if v == 6 {
        '6'
    } else if v == 7 {
        '7'
    } else if v == 8 {
        '8'
    } else if v == 9 {
        '9'
    } else if v == 10 {
        'a'
    } else if v == 11 {
        'b'
    } else if v == 12 {
        'c'
    } else if v == 13 {
        'd'
    } else if v == 14 {
        'e'
    } else {
        'f'
    }
}

/// The lowercase hexadecimal rendering of a byte sequence: two digits per
/// byte, high nibble first.
pub open spec fn hex_of(bytes: Seq<u8>) -> Seq<char>
    decreases bytes.len(),
{
    if bytes.len() == 0 {
        Seq::empty()
    } else {
        seq![hex_digit(bytes[0] / 16), hex_digit(bytes[0] % 16)] + hex_of(bytes.skip(1))
    }
}

/// One lowercase hexadecimal digit as a string slice.
fn hex_digit_str(v: u8) -> (r: &'static str)
    requires
        v < 16,
    ensures
        r@ == seq![hex_digit(v)],
{
    proof {
        reveal_strlit("0");
        reveal_strlit("1");
        reveal_strlit("2");
        reveal_strlit("3");
        reveal_strlit("4");
        reveal_strlit("5");
        reveal_strlit("6");
        reveal_strlit("7");
        reveal_strlit("8");
        reveal_strlit("9");
        reveal_strlit("a");
        reveal_strlit("b");
        reveal_strlit("c");
        reveal_strlit("d");
        reveal_strlit("e");
        reveal_strlit("f");
    }
    let r = if v == 0 {
        "0"
    } else if v == 1 {
        "1"
    } else if v == 2 {
        "2"
    } else if v == 3 {
        "3"
    } else if v == 4 {
        "4"
    } else if v == 5 {
        "5"
    } else if v == 6 {
        "6"
    } else if v == 7 {
        "7"
    } else if v == 8 {
        "8"
    } else if v == 9 {
        "9"
    } else if v == 10 {
        "a"
    } else if v == 11 {
        "b"
    } else if v == 12 {
        "c"
    } else if v == 13 {
        "d"
    } else if v == 14 {
        "e"
    } else {
        "f"
    };
    proof {
        assert(r@ =~= seq![hex_digit(v)]);
    }
    r
}

/// Renders a byte sequence as lowercase hexadecimal, two digits per byte.
pub fn bytes_to_hex(bytes: &Vec<u8>) -> (r: String)
    ensures
        r@ == hex_of(bytes@),
{
    let mut out = String::new();
    let n = bytes.len();
    let mut i: usize = 0;
    proof {
        assert(bytes@.skip(0) =~= bytes@);
    }
    while i < n
        invariant
            n == bytes.len(),
            i <= n,
            hex_of(bytes@) == out@ + hex_of(bytes@.skip(i as int)),
        decreases n - i,
    {
        proof {
            assert(bytes@.skip(i as int)[0] == bytes@[i as int]);
            assert(bytes@.skip(i as int).skip(1) =~= bytes@.skip(i as int + 1));
        }
        let b = bytes[i];
        let ghost pre = out@;
        out.append(hex_digit_str(b / 16));
        out.append(hex_digit_str(b % 16));
        proof {
            assert(out@ =~= pre + seq![hex_digit(b / 16), hex_digit(b % 16)]);
            assert(pre + (seq![hex_digit(b / 16), hex_digit(b % 16)] + hex_of(
                bytes@.skip(i as int + 1),
            )) =~= out@ + hex_of(bytes@.skip(i as int + 1)));
        }
        i = i + 1;
    }
    proof {
        assert(hex_of(bytes@.skip(n as int)) =~= Seq::<char>::empty());
        assert(out@ + Seq::<char>::empty() =~= out@);
    }
    out
}

/// Relies on `str::trim`: the result is the input with leading and trailing
/// whitespace removed, hence never longer than the input.
#[verifier::external_body]
pub fn trim_string(s: &str) -> (r: String)
    ensures
        r@ == trim_of(s@),
        r@.len() <= s@.len(),
{
    s.trim().to_string()
}

/// The stable account id derived from a username: a fixed prefix followed by
/// the hex MD5 digest of the lowercased username.
pub open spec fn spec_account_id(username: Seq<char>) -> Seq<char> {
    "copilot_"@ + hex_of(md5_digest_of(lower_of(username)))
}

/// Computes the stable account id for a username.
pub fn account_id_for(username: &str) -> (r: String)
    ensures
        r@ == spec_account_id(username@),
{
    let lower = to_lowercase(username);
    let digest = md5_digest(lower.as_str());
    let hex = bytes_to_hex(&digest);
    let mut id = String::from_str("copilot_");
    id.append(hex.as_str());
    id
}

/// String equality as a boolean result, stated over the views.
pub fn str_eq(a: &str, b: &str) -> (r: bool)
    ensures
        r == (a@ == b@),
{
    let x: String = a.to_owned();
    let y: String = b.to_owned();
    x == y
}

} // verus!
