use crate::error::IpcError;
use vstd::prelude::*;
use vstd::string::*;
use vstd::utf8::is_ascii_chars;

verus! {

/// The error of `getrandom`, carried through opaquely.
#[verifier::external_type_specification]
#[verifier::external_body]
pub struct ExRandomError(getrandom::Error);

/// Relies on `getrandom::getrandom`: fills the buffer from the operating
/// system's source of randomness, or reports why it could not. Nothing is
/// known of the bytes.
#[verifier::external_body]
fn random_bytes() -> (r: Result<[u8; 16], getrandom::Error>) {
    let mut b = [0u8; 16];
    match getrandom::getrandom(&mut b) {
        Ok(()) => Ok(b),
        Err(e) => Err(e),
    }
}

/// The upper-case hexadecimal digit of `d`.
pub open spec fn hex_digit(d: int) -> char {
    "0123456789ABCDEF"@[d]
}

/// The text of the first `n` bytes of an identifier: two hexadecimal digits
/// per byte, with a dash before the bytes at offsets 4, 6, 8 and 10.
pub open spec fn id_text(b: Seq<u8>, n: nat) -> Seq<char>
    decreases n,
{
    if n == 0 {
        Seq::empty()
    } else {
        let i = n - 1;
        let sep = if i == 4 || i == 6 || i == 8 || i == 10 {
            "-"@
        } else {
            Seq::empty()
        };
        id_text(b, i as nat) + sep + seq![hex_digit(b[i] as int / 16), hex_digit(b[i] as int % 16)]
    }
}

/// The token of a 128-bit identifier, as in `0A1B2C3D-4E5F-...`.
pub open spec fn id_token(b: Seq<u8>) -> Seq<char> {
    id_text(b, 16)
}

fn push_hex(s: &mut String, d: u8)
    requires
        d < 16,
    ensures
        final(s)@ == old(s)@ + seq![hex_digit(d as int)],
{
    let digits = "0123456789ABCDEF";
    proof {
        reveal_strlit("0123456789ABCDEF");
    }
    let t = digits.substring_char(d as usize, d as usize + 1);
    s.append(t);
    assert(t@ =~= seq![hex_digit(d as int)]);
}

/// Renders a 128-bit identifier as its token.
pub fn format_id(b: &[u8; 16]) -> (r: String)
    ensures
        r@ == id_token(b@),
{
    let mut r = String::new();
    let mut i: usize = 0;
    while i < 16
        invariant
            i <= 16,
            b@.len() == 16,
            r@ == id_text(b@, i as nat),
        decreases 16 - i,
    {
        if i == 4 || i == 6 || i == 8 || i == 10 {
            r.append("-");
        }
        let x = b[i];
        push_hex(&mut r, x / 16);
        push_hex(&mut r, x % 16);
        assert(r@ =~= id_text(b@, (i + 1) as nat));
        i = i + 1;
    }
    r
}

/// The token of an identifier is non-empty ASCII text without a dot.
pub proof fn lemma_id_token_plain(b: Seq<u8>)
    requires
        b.len() == 16,
    ensures
        id_token(b).len() > 0,
        is_ascii_chars(id_token(b)),
        !id_token(b).contains('.'),
{
    lemma_id_text_plain(b, 16);
}

proof fn lemma_id_text_plain(b: Seq<u8>, n: nat)
    requires
        n <= b.len(),
    ensures
        id_text(b, n).len() >= 2 * n,
        is_ascii_chars(id_text(b, n)),
        !id_text(b, n).contains('.'),
    decreases n,
{
    reveal_strlit("0123456789ABCDEF");
    reveal_strlit("-");
    if n > 0 {
        lemma_id_text_plain(b, (n - 1) as nat);
        let i = n - 1;
        let x: int = b[i] as int;
        assert(x / 16 < 16 && x % 16 < 16) by (nonlinear_arith)
            requires
                0 <= x < 256,
        ;
        let t = id_text(b, n);
        assert forall|j: int| 0 <= j < t.len() implies '\0' <= #[trigger] t[j] <= '\u{7f}' && t[j] != '.' by {
            let prev = id_text(b, i as nat);
            if j >= prev.len() {
                assert(t[j] != '.');
            }
        }
    }
}

/// The number of characters of `id_text(b, n)`.
pub open spec fn id_text_len(n: nat) -> nat
    decreases n,
{
    if n == 0 {
        0
    } else {
        let i = n - 1;
        id_text_len(i as nat) + 2 + if i == 4 || i == 6 || i == 8 || i == 10 {
            1nat
        } else {
            0nat
        }
    }
}

proof fn lemma_id_text_len(b: Seq<u8>, n: nat)
    ensures
        id_text(b, n).len() == id_text_len(n),
    decreases n,
{
    reveal_strlit("-");
    if n > 0 {
        lemma_id_text_len(b, (n - 1) as nat);
    }
}

proof fn lemma_hex_digit_injective(x: int, y: int)
    requires
        0 <= x < 16,
        0 <= y < 16,
        hex_digit(x) == hex_digit(y),
    ensures
        x == y,
{
    reveal_strlit("0123456789ABCDEF");
    let t = "0123456789ABCDEF"@;
    assert(t[0] == '0' && t[1] == '1' && t[2] == '2' && t[3] == '3' && t[4] == '4' && t[5] == '5'
        && t[6] == '6' && t[7] == '7' && t[8] == '8' && t[9] == '9' && t[10] == 'A' && t[11] == 'B'
        && t[12] == 'C' && t[13] == 'D' && t[14] == 'E' && t[15] == 'F');
    assert(x == 0 || x == 1 || x == 2 || x == 3 || x == 4 || x == 5 || x == 6 || x == 7 || x == 8
        || x == 9 || x == 10 || x == 11 || x == 12 || x == 13 || x == 14 || x == 15);
}

proof fn lemma_id_text_injective(a: Seq<u8>, b: Seq<u8>, n: nat)
    requires
        n <= a.len(),
        n <= b.len(),
        id_text(a, n) == id_text(b, n),
    ensures
        a.subrange(0, n as int) == b.subrange(0, n as int),
    decreases n,
{
    if n > 0 {
        let i = n - 1;
        let ta = id_text(a, i as nat);
        let tb = id_text(b, i as nat);
        lemma_id_text_len(a, i as nat);
        lemma_id_text_len(b, i as nat);
        lemma_id_text_len(a, n);
        let whole = id_text(a, n);
        let l = whole.len();
        assert(ta =~= whole.subrange(0, ta.len() as int));
        assert(tb =~= id_text(b, n).subrange(0, tb.len() as int));
        lemma_id_text_injective(a, b, i as nat);
        let xa: int = a[i] as int;
        let xb: int = b[i] as int;
        assert(whole[l - 2] == hex_digit(xa / 16) && whole[l - 1] == hex_digit(xa % 16));
        assert(id_text(b, n)[l - 2] == hex_digit(xb / 16) && id_text(b, n)[l - 1] == hex_digit(xb % 16));
        assert(0 <= xa / 16 < 16 && 0 <= xa % 16 < 16 && 0 <= xb / 16 < 16 && 0 <= xb % 16 < 16) by (nonlinear_arith)
            requires
                0 <= xa < 256,
                0 <= xb < 256,
        ;
        lemma_hex_digit_injective(xa / 16, xb / 16);
        lemma_hex_digit_injective(xa % 16, xb % 16);
        assert(xa == xb) by (nonlinear_arith)
            requires
                xa / 16 == xb / 16,
                xa % 16 == xb % 16,
                0 <= xa,
                0 <= xb,
        ;
        assert(a.subrange(0, n as int) =~= b.subrange(0, n as int)) by {
            assert(a.subrange(0, i as int) == b.subrange(0, i as int));
            assert forall|k: int| 0 <= k < n implies a.subrange(0, n as int)[k] == b.subrange(0, n as int)[k] by {
                if k < i {
                    assert(a.subrange(0, i as int)[k] == b.subrange(0, i as int)[k]);
                }
            }
        }
    }
}

/// Distinct identifiers have distinct tokens, of one and the same length.
pub proof fn lemma_id_token_injective(a: Seq<u8>, b: Seq<u8>)
    requires
        a.len() == 16,
        b.len() == 16,
        a != b,
    ensures
        id_token(a) != id_token(b),
        id_token(a).len() == id_token(b).len(),
{
    lemma_id_text_len(a, 16);
    lemma_id_text_len(b, 16);
    if id_token(a) == id_token(b) {
        lemma_id_text_injective(a, b, 16);
        assert(a =~= a.subrange(0, 16));
        assert(b =~= b.subrange(0, 16));
    }
}

/// Draws a fresh 128-bit identifier. Fails only where the system gives no
/// randomness.
pub fn uuidgen() -> (r: Result<[u8; 16], IpcError>)
    ensures
        r matches Err(e) ==> e == IpcError::IoFailure,
{
    match random_bytes() {
        Ok(b) => Ok(b),
        Err(_) => Err(IpcError::IoFailure),
    }
}

} // verus!
