//! Time-bucketed authentication token.
//!
//! The token is the uppercase-hexadecimal SHA-256 digest of the decimal tick
//! count concatenated with the shared secret.  The tick count is the current
//! Unix time shifted to the Windows/NT epoch, rounded down to a 300-second
//! window, and scaled to 100-nanosecond ticks, so every call within one
//! 5-minute window produces the same token.

use vstd::arithmetic::div_mod::lemma_fundamental_div_mod;
use vstd::prelude::*;

use sha2::Digest;

verus! {

/// The character for one digit value below sixteen, decimal digits first.
pub open spec fn digit_char(d: int) -> char {
    if d == 0 {
        '0'
    } else if d == 1 {
        '1'
    } else if d == 2 {
        '2'
    } else if d == 3 {
        '3'
    } else if d == 4 {
        '4'
    } else if d == 5 {
        '5'
    } else if d == 6 {
        '6'
    } else if d == 7 {
        '7'
    } else if d == 8 {
        '8'
    } else if d == 9 {
        '9'
    } else if d == 10 {
        'A'
    } else if d == 11 {
        'B'
    } else if d == 12 {
        'C'
    } else if d == 13 {
        'D'
    } else if d == 14 {
        'E'
    } else {
        'F'
    }
}

/// The decimal digit string of a nonnegative number, most significant first.
pub open spec fn dec_chars(n: int) -> Seq<char>
    decreases n,
{
    if n < 10 {
        seq![digit_char(n)]
    } else {
        dec_chars(n / 10).push(digit_char(n % 10))
    }
}

/// Uppercase hexadecimal of a byte string: two digits per byte, high nibble
/// first, no separators.
pub open spec fn hex_upper_chars(b: Seq<u8>) -> Seq<char> {
    Seq::new(
        2 * b.len(),
        |i: int|
            if i % 2 == 0 {
                digit_char(b[i / 2] as int / 16)
            } else {
                digit_char(b[i / 2] as int % 16)
            },
    )
}

/// Appends the character of one digit value below sixteen.
fn append_digit(s: &mut String, d: u8)
    requires
        d < 16,
    ensures
        final (s)@ == old(s)@ + seq![digit_char(d as int)],
{
    if d == 0 {
        proof {
            reveal_strlit("0");
            assert("0"@ =~= seq![digit_char(0)]);
        }
        s.append("0");
    } else if d == 1 {
        proof {
            reveal_strlit("1");
            assert("1"@ =~= seq![digit_char(1)]);
        }
        s.append("1");
    } else if d == 2 {
        proof {
            reveal_strlit("2");
            assert("2"@ =~= seq![digit_char(2)]);
        }
        s.append("2");
    } else if d == 3 {
        proof {
            reveal_strlit("3");
            assert("3"@ =~= seq![digit_char(3)]);
        }
        s.append("3");
    } else if d == 4 {
        proof {
            reveal_strlit("4");
            assert("4"@ =~= seq![digit_char(4)]);
        }
        s.append("4");
    } else if d == 5 {
        proof {
            reveal_strlit("5");
            assert("5"@ =~= seq![digit_char(5)]);
        }
        s.append("5");
    } else if d == 6 {
        proof {
            reveal_strlit("6");
            assert("6"@ =~= seq![digit_char(6)]);
        }
        s.append("6");
    } else if d == 7 {
        proof {
            reveal_strlit("7");
            assert("7"@ =~= seq![digit_char(7)]);
        }
        s.append("7");
    } else if d == 8 {
        proof {
            reveal_strlit("8");
            assert("8"@ =~= seq![digit_char(8)]);
        }
        s.append("8");
    } else if d == 9 {
        proof {
            reveal_strlit("9");
            assert("9"@ =~= seq![digit_char(9)]);
        }
        s.append("9");
    } else if d == 10 {
        proof {
            reveal_strlit("A");
            assert("A"@ =~= seq![digit_char(10)]);
        }
        s.append("A");
    } else if d == 11 {
        proof {
            reveal_strlit("B");
            assert("B"@ =~= seq![digit_char(11)]);
        }
        s.append("B");
    } else if d == 12 {
        proof {
            reveal_strlit("C");
            assert("C"@ =~= seq![digit_char(12)]);
        }
        s.append("C");
    } else if d == 13 {
        proof {
            reveal_strlit("D");
            assert("D"@ =~= seq![digit_char(13)]);
        }
        s.append("D");
    } else if d == 14 {
        proof {
            reveal_strlit("E");
            assert("E"@ =~= seq![digit_char(14)]);
        }
        s.append("E");
    } else {
        proof {
            reveal_strlit("F");
            assert("F"@ =~= seq![digit_char(15)]);
        }
        s.append("F");
    }
}

/// Appends the decimal digit string of `n`.
fn push_dec_u128(s: &mut String, n: u128)
    ensures
        final (s)@ == old(s)@ + dec_chars(n as int),
    decreases n,
{
    if n < 10 {
        append_digit(s, n as u8);
    } else {
        push_dec_u128(s, n / 10);
        append_digit(s, (n % 10) as u8);
        proof {
            assert(final (s)@ =~= old(s)@ + dec_chars(n as int));
        }
    }
}

/// Appends the uppercase hexadecimal form of `b`.
fn push_hex_upper(s: &mut String, b: &Vec<u8>)
    ensures
        final (s)@ == old(s)@ + hex_upper_chars(b@),
{
    let n = b.len();
    let mut i: usize = 0;
    proof {
        assert(s@ =~= old(s)@ + hex_upper_chars(b@.subrange(0, 0)));
    }
    while i < n
        invariant
            n == b@.len(),
            i <= n,
            s@ == old(s)@ + hex_upper_chars(b@.subrange(0, i as int)),
        decreases n - i,
    {
        let byte = b[i];
        append_digit(s, byte / 16);
        append_digit(s, byte % 16);
        proof {
            assert(s@ =~= old(s)@ + hex_upper_chars(b@.subrange(0, i + 1)));
        }
        i = i + 1;
    }
    proof {
        assert(b@.subrange(0, n as int) =~= b@);
    }
}

/// Name for the SHA-256 digest of a byte string: it depends on the input
/// bytes alone.
pub uninterp spec fn sha256_of(data: Seq<u8>) -> Seq<u8>;

/// Relies on sha2::Sha256 (update, then finalize): the digest is a function
/// of the input bytes alone and is always 32 bytes long.
#[verifier::external_body]
fn sha256(data: &Vec<u8>) -> (r: Vec<u8>)
    ensures
        r@ == sha256_of(data@),
        r@.len() == 32,
{
    let mut hasher = sha2::Sha256::new();
    hasher.update(data.as_slice());
    hasher.finalize().to_vec()
}

/// Relies on std::time::SystemTime::now: seconds since the Unix epoch, or 0
/// if the clock reads earlier than the epoch; nothing is assumed of the value.
#[verifier::external_body]
fn unix_now_seconds() -> u64 {
    match std::time::SystemTime::now().duration_since(std::time::UNIX_EPOCH) {
        Ok(d) => d.as_secs(),
        Err(_) => 0,
    }
}

/// The 5-minute window that a clock reading falls in, counted from the
/// Windows/NT epoch.
pub open spec fn window_bucket(unix_secs: int) -> int {
    (unix_secs + 11644473600) / 300
}

/// The 100-nanosecond tick count hashed into the token: the shifted clock
/// reading rounded down to its 300-second window.
pub open spec fn windows_ticks(unix_secs: int) -> int {
    let shifted = unix_secs + 11644473600;
    (shifted - (shifted % 300)) * 10000000
}

/// The character data hashed for the token: decimal ticks, then the secret,
/// with no separator.
pub open spec fn token_preimage_chars(unix_secs: int, secret: Seq<char>) -> Seq<char> {
    dec_chars(windows_ticks(unix_secs)) + secret
}

/// The token for a given clock reading and shared secret.
pub open spec fn token_chars(unix_secs: int, secret: Seq<char>) -> Seq<char> {
    hex_upper_chars(sha256_of(vstd::utf8::encode_utf8(token_preimage_chars(unix_secs, secret))))
}

/// Computes the token for one clock reading: 64 uppercase hexadecimal
/// characters over the rounded tick count and the secret.
pub fn token_for_time(unix_secs: u64, shared_secret: &str) -> (r: String)
    ensures
        r@ == token_chars(unix_secs as int, shared_secret@),
        r@.len() == 64,
{
    let shifted: u128 = (unix_secs as u128) + 11644473600;
    let rem: u128 = shifted % 300;
    let rounded: u128 = shifted - rem;
    proof {
        assert(rounded <= shifted);
        assert(shifted < 0x20000000000000000u128);
    }
    let ticks: u128 = rounded * 10000000;
    let mut data = String::new();
    push_dec_u128(&mut data, ticks);
    data.append(shared_secret);
    proof {
        assert(data@ =~= token_preimage_chars(unix_secs as int, shared_secret@));
    }
    let bytes = data.as_str().as_bytes_vec();
    let digest = sha256(&bytes);
    let mut out = String::new();
    push_hex_upper(&mut out, &digest);
    proof {
        assert(out@ =~= token_chars(unix_secs as int, shared_secret@));
    }
    out
}

/// Reads the clock and computes the token for the current 5-minute window.
pub fn generate_sec_ms_gec_sync(trusted_client_token: &str) -> (r: String)
    ensures
        exists|t: u64| r@ == token_chars(t as int, trusted_client_token@),
        r@.len() == 64,
{
    let now = unix_now_seconds();
    let r = token_for_time(now, trusted_client_token);
    proof {
        assert(r@ == token_chars(now as int, trusted_client_token@));
    }
    r
}

proof fn lemma_dec_chars_len(n: int)
    ensures
        dec_chars(n).len() >= 1,
    decreases n,
{
    if n >= 10 {
        lemma_dec_chars_len(n / 10);
    }
}

/// Different nonnegative numbers have different decimal digit strings.
proof fn lemma_dec_chars_injective(a: int, b: int)
    requires
        a >= 0,
        b >= 0,
        dec_chars(a) == dec_chars(b),
    ensures
        a == b,
    decreases a,
{
    if a < 10 && b < 10 {
        assert(dec_chars(a) == seq![digit_char(a)]);
        assert(dec_chars(b) == seq![digit_char(b)]);
        assert(seq![digit_char(a)][0] == digit_char(a));
        assert(seq![digit_char(b)][0] == digit_char(b));
        assert(digit_char(a) == digit_char(b));
    } else if a < 10 && b >= 10 {
        lemma_dec_chars_len(b / 10);
        assert(dec_chars(b).len() >= 2);
        assert(false);
    } else if a >= 10 && b < 10 {
        lemma_dec_chars_len(a / 10);
        assert(dec_chars(a).len() >= 2);
        assert(false);
    } else {
        let pa = dec_chars(a / 10);
        let pb = dec_chars(b / 10);
        assert(dec_chars(a) == pa.push(digit_char(a % 10)));
        assert(dec_chars(b) == pb.push(digit_char(b % 10)));
        assert(pa.len() == pb.len());
        assert forall|i: int| 0 <= i < pa.len() implies pa[i] == pb[i] by {
            assert(pa.push(digit_char(a % 10))[i] == pa[i]);
            assert(pb.push(digit_char(b % 10))[i] == pb[i]);
        }
        assert(pa =~= pb);
        lemma_dec_chars_injective(a / 10, b / 10);
        assert(pa.push(digit_char(a % 10)).last() == digit_char(a % 10));
        assert(pb.push(digit_char(b % 10)).last() == digit_char(b % 10));
        assert(digit_char(a % 10) == digit_char(b % 10));
        assert(a % 10 == b % 10);
        lemma_fundamental_div_mod(a, 10);
        lemma_fundamental_div_mod(b, 10);
    }
}

/// Two different character strings stay different when the same suffix is
/// appended to both.
proof fn lemma_concat_same_suffix_differs(x: Seq<char>, y: Seq<char>, s: Seq<char>)
    requires
        x != y,
    ensures
        x + s != y + s,
{
    if x.len() != y.len() {
        assert((x + s).len() != (y + s).len());
    } else {
        if !(exists|i: int| 0 <= i < x.len() && x[i] != y[i]) {
            assert(forall|i: int| 0 <= i < x.len() ==> x[i] == y[i]);
            assert(x =~= y);
            assert(false);
        }
        let i = choose|i: int| 0 <= i < x.len() && x[i] != y[i];
        assert((x + s)[i] == x[i]);
        assert((y + s)[i] == y[i]);
    }
}

/// Two clock readings in the same 300-second window produce the very same
/// token: the token is stable within a 5-minute window.
pub proof fn lemma_token_stable_within_window(t1: int, t2: int, secret: Seq<char>)
    requires
        t1 >= 0,
        t2 >= 0,
        window_bucket(t1) == window_bucket(t2),
    ensures
        token_chars(t1, secret) == token_chars(t2, secret),
{
    lemma_fundamental_div_mod(t1 + 11644473600, 300);
    lemma_fundamental_div_mod(t2 + 11644473600, 300);
    assert(windows_ticks(t1) == windows_ticks(t2));
}

/// Two clock readings in different 300-second windows hash different data:
/// the character string fed to the digest changes at every 300-second
/// boundary.
pub proof fn lemma_token_preimage_differs_across_windows(t1: int, t2: int, secret: Seq<char>)
    requires
        t1 >= 0,
        t2 >= 0,
        window_bucket(t1) != window_bucket(t2),
    ensures
        token_preimage_chars(t1, secret) != token_preimage_chars(t2, secret),
{
    lemma_fundamental_div_mod(t1 + 11644473600, 300);
    lemma_fundamental_div_mod(t2 + 11644473600, 300);
    assert(windows_ticks(t1) == 300 * window_bucket(t1) * 10000000);
    assert(windows_ticks(t2) == 300 * window_bucket(t2) * 10000000);
    assert(windows_ticks(t1) != windows_ticks(t2));
    assert(windows_ticks(t1) >= 0);
    assert(windows_ticks(t2) >= 0);
    if dec_chars(windows_ticks(t1)) == dec_chars(windows_ticks(t2)) {
        lemma_dec_chars_injective(windows_ticks(t1), windows_ticks(t2));
        assert(false);
    }
    lemma_concat_same_suffix_differs(
        dec_chars(windows_ticks(t1)),
        dec_chars(windows_ticks(t2)),
        secret,
    );
}

/// Two clock readings in different 300-second windows feed different byte
/// strings to the digest: the tokens can only coincide across a boundary if
/// SHA-256 collides on them.
pub proof fn lemma_token_hashed_bytes_differ_across_windows(t1: int, t2: int, secret: Seq<char>)
    requires
        t1 >= 0,
        t2 >= 0,
        window_bucket(t1) != window_bucket(t2),
    ensures
        vstd::utf8::encode_utf8(token_preimage_chars(t1, secret)) != vstd::utf8::encode_utf8(
            token_preimage_chars(t2, secret),
        ),
{
    lemma_token_preimage_differs_across_windows(t1, t2, secret);
    let p1 = token_preimage_chars(t1, secret);
    let p2 = token_preimage_chars(t2, secret);
    if vstd::utf8::encode_utf8(p1) == vstd::utf8::encode_utf8(p2) {
        vstd::utf8::encode_utf8_decode_utf8(p1);
        vstd::utf8::encode_utf8_decode_utf8(p2);
        assert(false);
    }
}

} // verus!
