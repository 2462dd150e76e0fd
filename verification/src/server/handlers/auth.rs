//! Sign-in by emailed code, sessions, and the signed-in user.
use vstd::prelude::*;
use crate::server::handlers::AuthUser;
use crate::text::push_char;

verus! {

#[derive(Debug, Clone)]
pub struct LoginRequest {
    pub email: String,
}

#[derive(Debug, Clone)]
pub struct LoginResponse {
    pub message: String,
}

#[derive(Debug, Clone)]
pub struct VerifyRequest {
    pub email: String,
    pub code: String,
}

#[derive(Debug, Clone)]
pub struct VerifyResponse {
    pub user: UserInfo,
}

#[derive(Debug, Clone)]
pub struct UserInfo {
    pub id: String,
    pub email: String,
}

/// The character of the decimal digit `d`.
pub open spec fn digit_char(d: int) -> char {
    (48 + d) as char
}

/// The last `width` decimal digits of `n`, most significant first, padded
/// with zeros (what `format!("{:0width$}", n)` prints for `n < 10^width`).
pub open spec fn padded_decimal(n: nat, width: nat) -> Seq<char>
    decreases width,
{
    if width == 0 {
        Seq::empty()
    } else {
        padded_decimal(n / 10, (width - 1) as nat).push(digit_char((n % 10) as int))
    }
}

/// The number a string of decimal digits denotes.
pub open spec fn decimal_value(s: Seq<char>) -> int
    decreases s.len(),
{
    if s.len() == 0 {
        0
    } else {
        decimal_value(s.drop_last()) * 10 + (s.last() as int - 48)
    }
}

/// Ten to the power `k`.
pub open spec fn pow10(k: nat) -> nat
    decreases k,
{
    if k == 0 {
        1
    } else {
        10 * pow10((k - 1) as nat)
    }
}

fn push_padded(s: &mut String, n: u32, width: u32)
    ensures
        final(s)@ == old(s)@ + padded_decimal(n as nat, width as nat),
    decreases width,
{
    if width > 0 {
        push_padded(s, n / 10, width - 1);
        let d = (n % 10) as u8;
        push_char(s, (48u8 + d) as char);
        assert(final(s)@ =~= old(s)@ + padded_decimal(n as nat, width as nat));
    } else {
        assert(final(s)@ =~= old(s)@ + padded_decimal(n as nat, width as nat));
    }
}

/// The sign-in code for a random number: its last six decimal digits,
/// zero-padded.
pub fn login_code(random: u32) -> (code: String)
    ensures
        code@ == padded_decimal((random % 1_000_000) as nat, 6),
{
    let mut code = String::new();
    push_padded(&mut code, random % 1_000_000, 6);
    assert(code@ =~= padded_decimal((random % 1_000_000) as nat, 6));
    code
}

/// A random `u32` (`rand::random::<u32>`): nothing is promised of the value.
#[verifier::external_body]
fn random_u32() -> (r: u32) {
    rand::random::<u32>()
}

/// A new random sign-in code.
pub fn new_login_code() -> (code: String)
    ensures
        exists|r: u32| code@ == #[trigger] padded_decimal((r % 1_000_000) as nat, 6),
{
    let r = random_u32();
    login_code(r)
}

proof fn lemma_pow10_pos(k: nat)
    ensures
        pow10(k) > 0,
    decreases k,
{
    if k > 0 {
        lemma_pow10_pos((k - 1) as nat);
    }
}

proof fn lemma_padded_value(n: nat, width: nat)
    ensures
        padded_decimal(n, width).len() == width,
        decimal_value(padded_decimal(n, width)) == n % pow10(width),
        forall|i: int|
            0 <= i < width ==> '0' <= #[trigger] padded_decimal(n, width)[i] <= '9',
    decreases width,
{
    if width > 0 {
        let w1 = (width - 1) as nat;
        lemma_padded_value(n / 10, w1);
        let s = padded_decimal(n, width);
        assert(s.drop_last() == padded_decimal(n / 10, w1));
        assert(pow10(width) == 10 * pow10(w1));
        lemma_pow10_pos(w1);
        vstd::arithmetic::div_mod::lemma_mod_breakdown(n as int, 10, pow10(w1) as int);
        assert(n % pow10(width) == 10 * ((n / 10) % pow10(w1)) + n % 10);
        assert(decimal_value(s) == decimal_value(s.drop_last()) * 10 + (n % 10)) by {
            assert(s.last() == digit_char((n % 10) as int));
        }
        assert forall|i: int| 0 <= i < width implies '0' <= #[trigger] s[i] <= '9' by {
            if i < w1 {
                assert(s[i] == padded_decimal(n / 10, w1)[i]);
            }
        }
    }
}

/// A sign-in code has six decimal digits, and denotes the random number it
/// was made from modulo one million.
pub proof fn law_login_code_digits(random: u32)
    ensures
        padded_decimal((random % 1_000_000) as nat, 6).len() == 6,
        decimal_value(padded_decimal((random % 1_000_000) as nat, 6)) == random % 1_000_000,
        forall|i: int|
            0 <= i < 6 ==> '0' <= #[trigger] padded_decimal((random % 1_000_000) as nat, 6)[i]
                <= '9',
{
    let n = (random % 1_000_000) as nat;
    lemma_padded_value(n, 6);
    reveal_with_fuel(pow10, 7);
    assert(pow10(6) == 1_000_000);
}

/// The reply to a sign-in request.
pub fn login_response() -> (r: LoginResponse)
    ensures
        r.message@ == "Code sent to your email"@,
{
    LoginResponse { message: String::from_str("Code sent to your email") }
}

/// The cookie that starts a session: `session=<id>` for thirty days.
pub open spec fn session_cookie_text(session_id: Seq<char>) -> Seq<char> {
    "session="@ + session_id + "; Path=/; HttpOnly; SameSite=Lax; Max-Age=2592000"@
}

/// The cookie that ends a session: an empty `session` that expires at once.
pub open spec fn logout_cookie_text() -> Seq<char> {
    "session=; Path=/; HttpOnly; SameSite=Lax; Max-Age=0"@
}

/// The `set-cookie` value that starts the given session.
pub fn session_cookie(session_id: &str) -> (r: String)
    ensures
        r@ == session_cookie_text(session_id@),
{
    let mut c = String::from_str("session=");
    c.append(session_id);
    c.append("; Path=/; HttpOnly; SameSite=Lax; Max-Age=2592000");
    c
}

/// The `set-cookie` value that ends the session.
pub fn logout_cookie() -> (r: String)
    ensures
        r@ == logout_cookie_text(),
{
    String::from_str("session=; Path=/; HttpOnly; SameSite=Lax; Max-Age=0")
}

/// The signed-in user's details.
pub fn me(user: AuthUser) -> (r: UserInfo)
    ensures
        r.id == user.user_id,
        r.email == user.email,
{
    UserInfo { id: user.user_id, email: user.email }
}

} // verus!
