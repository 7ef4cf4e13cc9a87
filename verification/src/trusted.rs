//! The few places where the library leans on code Verus does not read:
//! the system clock, fresh transfer identifiers, cooperative cancellation
//! handles, Unicode lowercasing and single-character string appends.

use vstd::prelude::*;

verus! {

/// Relies on chrono's `Utc::now` and `DateTime::timestamp`: seconds since
/// the Unix epoch. Nothing can be promised of the clock, so the contract
/// only fixes the result's type.
#[verifier::external_body]
pub(crate) fn now_secs() -> (t: i64) {
    chrono::Utc::now().timestamp()
}

/// Relies on uuid's `Uuid::new_v4` and its `Display` form: a random
/// version-4 UUID rendered hyphenated, which is always 36 characters.
#[verifier::external_body]
pub(crate) fn fresh_id() -> (id: String)
    ensures
        id@.len() == 36,
{
    uuid::Uuid::new_v4().to_string()
}

#[verifier::external_type_specification]
#[verifier::external_body]
pub struct ExCancellationToken(tokio_util::sync::CancellationToken);

/// Relies on tokio-util's `CancellationToken::new`: a fresh, uncancelled
/// handle. Its internal state is invisible here, so nothing more is said.
#[verifier::external_body]
pub(crate) fn token_new() -> (t: tokio_util::sync::CancellationToken) {
    tokio_util::sync::CancellationToken::new()
}

/// Relies on tokio-util's `Clone for CancellationToken`: a handle to the
/// same cancellation state. The shared state is invisible here.
#[verifier::external_body]
pub(crate) fn token_clone(t: &tokio_util::sync::CancellationToken) -> (r:
    tokio_util::sync::CancellationToken) {
    t.clone()
}

/// Relies on tokio-util's `CancellationToken::cancel`: signals every
/// holder of the handle. The shared state is invisible here.
#[verifier::external_body]
pub(crate) fn token_cancel(t: &tokio_util::sync::CancellationToken) {
    t.cancel()
}

/// Relies on tokio-util's `CancellationToken::is_cancelled`. The result
/// depends on shared state, so nothing is promised of its value.
#[verifier::external_body]
pub(crate) fn token_is_cancelled(t: &tokio_util::sync::CancellationToken) -> (r: bool) {
    t.is_cancelled()
}

/// What `str::to_lowercase` returns; a function of the characters alone.
pub uninterp spec fn lower_of(s: Seq<char>) -> Seq<char>;

/// Relies on `str::to_lowercase`: the result depends on the characters
/// alone, and an empty string stays empty.
#[verifier::external_body]
pub(crate) fn lowercase(s: &str) -> (r: String)
    ensures
        r@ == lower_of(s@),
        s@.len() == 0 ==> r@.len() == 0,
{
    s.to_lowercase()
}

/// Relies on `String::push`: appends the given character.
#[verifier::external_body]
pub(crate) fn push_char(s: &mut String, c: char)
    ensures
        final(s)@ == old(s)@.push(c),
{
    s.push(c)
}

} // verus!
