use vstd::prelude::*;
use crate::error::VideoError;
use crate::json::{Json, at_path, str_of, bool_of, str_at_is};

verus! {

/// The site reports an error status for the video.
pub open spec fn is_play_error(resp: Json) -> bool {
    str_of(at_path(resp, seq!["playabilityStatus"@, "status"@])) == Some("ERROR"@)
}

/// The video is flagged private.
pub open spec fn is_private(resp: Json) -> bool {
    bool_of(at_path(resp, seq!["videoDetails"@, "isPrivate"@])) == Some(true)
}

/// The video can only be rented.
pub open spec fn is_rental(resp: Json) -> bool {
    str_of(at_path(resp, seq!["playabilityStatus"@, "status"@])) == Some("UNPLAYABLE"@)
        && at_path(
        resp,
        seq!["playabilityStatus"@, "errorScreen"@, "playerLegacyDesktopYpcOfferRenderer"@],
    ) is Some
}

/// The video is a live event that has not been broadcast yet.
pub open spec fn is_not_yet_broadcast(resp: Json) -> bool {
    str_of(at_path(resp, seq!["playabilityStatus"@, "status"@])) == Some("LIVE_STREAM_OFFLINE"@)
}

/// The response carries a streaming-data section.
pub open spec fn has_streaming_data(resp: Json) -> bool {
    at_path(resp, seq!["streamingData"@]) is Some
}

/// The verdict of the playability checks, the first that applies winning; `full`
/// also refuses live events that have not started.
pub open spec fn playability(resp: Json, full: bool) -> Result<(), VideoError> {
    if is_play_error(resp) {
        Err(VideoError::VideoNotFound)
    } else if is_private(resp) {
        Err(VideoError::VideoIsPrivate)
    } else if is_rental(resp) || (full && is_not_yet_broadcast(resp)) {
        Err(VideoError::VideoSourceNotFound)
    } else if !has_streaming_data(resp) {
        Err(VideoError::VideoSourceNotFound)
    } else {
        Ok(())
    }
}

proof fn lemma_path_views()
    ensures
        crate::json::path_view(seq!["playabilityStatus", "status"]) == seq![
            "playabilityStatus"@,
            "status"@,
        ],
        crate::json::path_view(seq!["videoDetails", "isPrivate"]) == seq![
            "videoDetails"@,
            "isPrivate"@,
        ],
        crate::json::path_view(
            seq!["playabilityStatus", "errorScreen", "playerLegacyDesktopYpcOfferRenderer"],
        ) == seq![
            "playabilityStatus"@,
            "errorScreen"@,
            "playerLegacyDesktopYpcOfferRenderer"@,
        ],
        crate::json::path_view(seq!["streamingData"]) == seq!["streamingData"@],
{
    assert(crate::json::path_view(seq!["playabilityStatus", "status"]) =~= seq![
        "playabilityStatus"@,
        "status"@,
    ]);
    assert(crate::json::path_view(seq!["videoDetails", "isPrivate"]) =~= seq![
        "videoDetails"@,
        "isPrivate"@,
    ]);
    assert(crate::json::path_view(
        seq!["playabilityStatus", "errorScreen", "playerLegacyDesktopYpcOfferRenderer"],
    ) =~= seq!["playabilityStatus"@, "errorScreen"@, "playerLegacyDesktopYpcOfferRenderer"@]);
    assert(crate::json::path_view(seq!["streamingData"]) =~= seq!["streamingData"@]);
}

/// Runs the playability checks on a player response, in order: an error status,
/// the private flag, a rental (and, when `full`, a live event not yet broadcast),
/// and a missing streaming-data section.
pub fn check_playability(resp: &Json, full: bool) -> (r: Result<(), VideoError>)
    ensures
        r == playability(*resp, full),
{
    proof {
        lemma_path_views();
    }
    let status: [&str; 2] = ["playabilityStatus", "status"];
    assert(status@ == seq!["playabilityStatus", "status"]);
    if str_at_is(resp, &status, "ERROR") {
        return Err(VideoError::VideoNotFound);
    }
    let private: [&str; 2] = ["videoDetails", "isPrivate"];
    assert(private@ == seq!["videoDetails", "isPrivate"]);
    let flagged = match resp.get_path(&private) {
        Some(v) => match v.as_bool() {
            Some(b) => b,
            None => false,
        },
        None => false,
    };
    if flagged {
        return Err(VideoError::VideoIsPrivate);
    }
    let offer: [&str; 3] = [
        "playabilityStatus",
        "errorScreen",
        "playerLegacyDesktopYpcOfferRenderer",
    ];
    assert(offer@ == seq![
        "playabilityStatus",
        "errorScreen",
        "playerLegacyDesktopYpcOfferRenderer",
    ]);
    let rental = str_at_is(resp, &status, "UNPLAYABLE") && resp.get_path(&offer).is_some();
    if rental || (full && str_at_is(resp, &status, "LIVE_STREAM_OFFLINE")) {
        return Err(VideoError::VideoSourceNotFound);
    }
    let streaming: [&str; 1] = ["streamingData"];
    assert(streaming@ == seq!["streamingData"]);
    if resp.get_path(&streaming).is_none() {
        return Err(VideoError::VideoSourceNotFound);
    }
    Ok(())
}

/// A response flagged both private and rental is reported as private.
pub proof fn lemma_private_before_rental(resp: Json, full: bool)
    requires
        is_private(resp),
        is_rental(resp),
    ensures
        playability(resp, full) == Err::<(), VideoError>(VideoError::VideoIsPrivate),
{
    reveal_strlit("ERROR");
    reveal_strlit("UNPLAYABLE");
    assert("ERROR"@[0] != "UNPLAYABLE"@[0]);
}

} // verus!
