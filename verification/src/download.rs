use vstd::prelude::*;
use crate::text::joined;

verus! {

/// The folder, under the user's local application data, that beatmaps are
/// downloaded to.
pub const DOWNLOAD_DIR_NAME: &'static str = "osu!directer-beatmaps";

/// The `Accept` header sent with a download request.
pub const DOWNLOAD_ACCEPT: &'static str = "application/octet-strean";

/// A site that beatmap sets are downloaded from.
#[derive(Debug, Clone, Copy, PartialEq, Eq, Structural)]
pub enum Mirror {
    Chimu,
    Kitsu,
}

/// The next move in downloading a set.
#[derive(Debug, Clone, Copy, PartialEq, Eq, Structural)]
pub enum MirrorStep {
    /// Try this mirror.
    Try(Mirror),
    /// The last mirror tried delivered the set.
    Delivered,
    /// No mirror delivered it.
    Exhausted,
}

/// The mirror tried first.
pub fn first_mirror() -> (m: Mirror)
    ensures
        m == Mirror::Chimu,
{
    Mirror::Chimu
}

/// The move after trying `tried`: stop where it delivered; otherwise go on
/// from Chimu to Kitsu, and give up after Kitsu.
pub open spec fn spec_mirror_after(tried: Mirror, delivered: bool) -> MirrorStep {
    if delivered {
        MirrorStep::Delivered
    } else {
        match tried {
            Mirror::Chimu => MirrorStep::Try(Mirror::Kitsu),
            Mirror::Kitsu => MirrorStep::Exhausted,
        }
    }
}

/// The move after trying `tried`, given whether it delivered the set.
pub fn mirror_after(tried: Mirror, delivered: bool) -> (step: MirrorStep)
    ensures
        step == spec_mirror_after(tried, delivered),
{
    if delivered {
        MirrorStep::Delivered
    } else {
        match tried {
            Mirror::Chimu => MirrorStep::Try(Mirror::Kitsu),
            Mirror::Kitsu => MirrorStep::Exhausted,
        }
    }
}

/// Whatever the mirrors answer, a download tries at most two mirrors, Chimu
/// first and Kitsu only where Chimu failed, and succeeds exactly when one of
/// them delivers.
pub proof fn lemma_mirrors_tried_in_order(chimu_delivers: bool, kitsu_delivers: bool)
    ensures
        ({
            let s1 = spec_mirror_after(Mirror::Chimu, chimu_delivers);
            let end = match s1 {
                MirrorStep::Try(m) => spec_mirror_after(m, kitsu_delivers),
                other => other,
            };
            &&& (s1 is Try <==> !chimu_delivers)
            &&& (s1 matches MirrorStep::Try(m) ==> m == Mirror::Kitsu)
            &&& end !is Try
            &&& (end == MirrorStep::Delivered <==> chimu_delivers || kitsu_delivers)
        }),
{
}

/// The address that a mirror serves a set at, without the set id.
pub open spec fn spec_mirror_base(mirror: Mirror) -> Seq<char> {
    match mirror {
        Mirror::Chimu => "https://api.chimu.moe/v1/download/"@,
        Mirror::Kitsu => "https://kitsu.moe/api/d/"@,
    }
}

/// What a downloaded set's file name ends with, after the set id.
pub open spec fn spec_mirror_suffix(mirror: Mirror) -> Seq<char> {
    match mirror {
        Mirror::Chimu => "_chimu.osz"@,
        Mirror::Kitsu => "_kitsu.osz"@,
    }
}

/// The address to download the set `beatmapset_id` from on `mirror`.
pub fn download_url(mirror: Mirror, beatmapset_id: &str) -> (url: String)
    ensures
        url@ == spec_mirror_base(mirror) + beatmapset_id@,
{
    match mirror {
        Mirror::Chimu => joined("https://api.chimu.moe/v1/download/", beatmapset_id),
        Mirror::Kitsu => joined("https://kitsu.moe/api/d/", beatmapset_id),
    }
}

/// The name that a set downloaded from `mirror` is saved under.
pub fn download_file_name(mirror: Mirror, beatmapset_id: &str) -> (name: String)
    ensures
        name@ == beatmapset_id@ + spec_mirror_suffix(mirror),
{
    match mirror {
        Mirror::Chimu => joined(beatmapset_id, "_chimu.osz"),
        Mirror::Kitsu => joined(beatmapset_id, "_kitsu.osz"),
    }
}

/// Whether a mirror's answer carries the set: only status 200 does.
pub fn download_accepted(status: u16) -> (ok: bool)
    ensures
        ok == (status == 200),
{
    status == 200
}

} // verus!
