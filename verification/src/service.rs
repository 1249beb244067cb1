use vstd::prelude::*;

use crate::codegen::DEFAULT_CODE_LENGTH;
use crate::codegen::GenerationError;
use crate::codegen::generate_unique_short_code;
use crate::codegen::valid_code;
use crate::models::RecordView;
use crate::models::ShortCode;
use crate::models::UrlExistsRequest;
use crate::store::UrlStore;
use crate::store::contains_code;

verus! {

/// The whole create flow: draw a unique short code for the requested URL
/// and persist the record under it. On success the store grows by exactly
/// the new record, stamped by the store, and the returned code is the key
/// it was filed under; when every candidate collided the request fails
/// with `GenerationExhausted` and the store is unchanged. On a store with
/// no live records success is owed.
pub fn shorten_url(store: &mut UrlStore, request: UrlExistsRequest) -> (r: Result<
    ShortCode,
    GenerationError,
>)
    requires
        old(store).wf(),
        request.url@.len() > 0,
        request.discord_id matches Some(id) ==> id@.len() > 0,
    ensures
        final(store).wf(),
        r matches Ok(sc) ==> {
            &&& valid_code(sc.code@, DEFAULT_CODE_LENGTH as int)
            &&& !contains_code(old(store)@, sc.code@)
            &&& final(store)@ == old(store)@.push(
                RecordView {
                    discord_id: request.discord_id.deep_view(),
                    short_code: sc.code@,
                    original_url: request.url@,
                    created_at: old(store).next_stamp(),
                },
            )
        },
        r matches Err(e) ==> e == GenerationError::GenerationExhausted && final(store)@
            == old(store)@,
        (forall|i: int|
            0 <= i < old(store)@.len() ==> old(store)@[i].short_code.len()
                != DEFAULT_CODE_LENGTH) ==> r is Ok,
{
    let code = match generate_unique_short_code(store, DEFAULT_CODE_LENGTH) {
        Ok(code) => code,
        Err(e) => {
            return Err(e);
        },
    };
    let returned = code.clone();
    match store.insert(request.discord_id, code, request.url) {
        Ok(()) => Ok(ShortCode { code: returned }),
        Err(_) => Err(GenerationError::GenerationExhausted),
    }
}

} // verus!
