use vstd::prelude::*;
use crate::text::{opt_view, trim, trimmed};

verus! {

/// The links that name a beatmap: group 1 is `beatmaps` (one difficulty) or
/// `beatmapsets` (a whole set), group 2 is the number.
pub const BEATMAP_LINK_PATTERN: &'static str = r"^https://osu\.ppy\.sh/((?:beatmaps)|(?:beatmapsets))/(\d+)";

/// For a regular expression and a text, the groups that `regex::Regex::new`
/// and `Regex::captures` report: `None` where the pattern does not compile or
/// does not match, otherwise one entry per group of the pattern (group 0, the
/// whole match, first), `None` for a group that took no part in the match.
pub uninterp spec fn regex_captures(pattern: Seq<char>, text: Seq<char>) -> Option<
    Seq<Option<Seq<char>>>,
>;

/// The groups of a match, each taken by its characters.
pub open spec fn groups_view(groups: Vec<Option<String>>) -> Seq<Option<Seq<char>>> {
    groups@.map_values(|g: Option<String>| opt_view(g))
}

/// Optional groups, taken by their characters.
pub open spec fn opt_groups_view(groups: Option<Vec<Option<String>>>) -> Option<
    Seq<Option<Seq<char>>>,
> {
    match groups {
        Some(g) => Some(groups_view(g)),
        None => None,
    }
}

/// Compiles `pattern` with `regex::Regex::new` and runs `Regex::captures` on
/// `text`, handing back each group's text (`Captures::iter`, `Match::as_str`).
/// The contract names the result (`regex_captures`): it claims only that the
/// groups depend on the pattern and the text alone.
#[verifier::external_body]
fn captures(pattern: &str, text: &str) -> (groups: Option<Vec<Option<String>>>)
    ensures
        opt_groups_view(groups) == regex_captures(pattern@, text@),
{
    match regex::Regex::new(pattern) {
        Ok(re) => re.captures(text).map(
            |caps| caps.iter().map(|m| m.map(|m| m.as_str().to_string())).collect(),
        ),
        Err(_) => None,
    }
}

/// What to do next with a link that was handed to the program.
#[derive(Debug, Clone, PartialEq, Eq)]
pub enum LinkAction {
    /// Open this link in the browser.
    OpenInBrowser(String),
    /// Request this link and plan again with where it redirects to.
    FollowRedirect(String),
    /// Download the beatmap set with this id.
    Download(String),
    /// Open this downloaded beatmap file in osu!.
    OpenBeatmap(String),
    /// Drop the link.
    Skip,
}

/// A link action taken by its characters.
pub enum LinkStep {
    OpenInBrowser(Seq<char>),
    FollowRedirect(Seq<char>),
    Download(Seq<char>),
    OpenBeatmap(Seq<char>),
    Skip,
}

impl View for LinkAction {
    type V = LinkStep;

    open spec fn view(&self) -> LinkStep {
        match self {
            LinkAction::OpenInBrowser(u) => LinkStep::OpenInBrowser(u@),
            LinkAction::FollowRedirect(u) => LinkStep::FollowRedirect(u@),
            LinkAction::Download(id) => LinkStep::Download(id@),
            LinkAction::OpenBeatmap(p) => LinkStep::OpenBeatmap(p@),
            LinkAction::Skip => LinkStep::Skip,
        }
    }
}

/// Where a link cannot be planned: a group of the match that the plan reads
/// is missing, or a redirect did not lead to a beatmap link.
#[derive(Debug, Clone, Copy, PartialEq, Eq)]
pub enum LinkError {
    MissingGroup,
    RedirectNotBeatmap,
}

/// A planned step, or the error that stops the plan.
pub open spec fn plan_result_view(r: Result<LinkAction, LinkError>) -> Result<LinkStep, LinkError> {
    match r {
        Ok(a) => Ok(a@),
        Err(e) => Err(e),
    }
}

/// The plan for a link handed to the program, given the groups that the
/// beatmap pattern found in it: no match, or fewer than two groups, opens the
/// link in the browser; a `beatmaps` link is followed to where it redirects;
/// any other match downloads the set whose id is group 2. Group 2 is read
/// first and group 1 after it: where either is absent there is no plan.
pub open spec fn spec_plan_from_groups(url: Seq<char>, groups: Option<Seq<Option<Seq<char>>>>) -> Result<LinkStep, LinkError> {
    match groups {
        None => Ok(LinkStep::OpenInBrowser(url)),
        Some(g) => if g.len() < 2 {
            Ok(LinkStep::OpenInBrowser(url))
        } else if g.len() < 3 || g[2] is None || g[1] is None {
            Err(LinkError::MissingGroup)
        } else if g[1]->0 == "beatmaps"@ {
            Ok(LinkStep::FollowRedirect(url))
        } else {
            Ok(LinkStep::Download(g[2]->0))
        },
    }
}

/// The plan for a link, given the groups of the beatmap pattern in it.
pub fn plan_from_groups(url: &str, groups: Option<Vec<Option<String>>>) -> (res: Result<LinkAction, LinkError>)
    ensures
        plan_result_view(res) == spec_plan_from_groups(url@, opt_groups_view(groups)),
{
    match groups {
        None => Ok(LinkAction::OpenInBrowser(url.to_string())),
        Some(g) => {
            if g.len() < 2 {
                return Ok(LinkAction::OpenInBrowser(url.to_string()));
            }
            if g.len() < 3 {
                return Err(LinkError::MissingGroup);
            }
            let id = match &g[2] {
                Some(id) => id.clone(),
                None => return Err(LinkError::MissingGroup),
            };
            let kind = match &g[1] {
                Some(kind) => kind.clone(),
                None => return Err(LinkError::MissingGroup),
            };
            let beatmaps = String::from_str("beatmaps");
            if kind == beatmaps {
                Ok(LinkAction::FollowRedirect(url.to_string()))
            } else {
                Ok(LinkAction::Download(id))
            }
        },
    }
}

/// The plan for a link handed to the program: without an osu! executable every
/// link opens in the browser; otherwise the link, trimmed of white space, is
/// matched against the beatmap pattern and planned from its groups.
pub fn plan_link(url: &str, osu_found: bool) -> (res: Result<LinkAction, LinkError>)
    ensures
        !osu_found ==> plan_result_view(res) == Ok::<LinkStep, LinkError>(LinkStep::OpenInBrowser(url@)),
        osu_found ==> plan_result_view(res) == spec_plan_from_groups(
            url@,
            regex_captures(BEATMAP_LINK_PATTERN@, trimmed(url@)),
        ),
{
    if !osu_found {
        return Ok(LinkAction::OpenInBrowser(url.to_string()));
    }
    let groups = captures(BEATMAP_LINK_PATTERN, trim(url));
    plan_from_groups(url, groups)
}

/// The plan once a `beatmaps` link has been requested: a failed request drops
/// the link; otherwise the address it ended at must match the beatmap pattern
/// (there is no plan where it does not), fewer than two groups open that
/// address in the browser, and otherwise the set whose id is group 2 is
/// downloaded.
pub open spec fn spec_plan_after_redirect(
    succeeded: bool,
    final_url: Seq<char>,
    groups: Option<Seq<Option<Seq<char>>>>,
) -> Result<LinkStep, LinkError> {
    if !succeeded {
        Ok(LinkStep::Skip)
    } else {
        match groups {
            None => Err(LinkError::RedirectNotBeatmap),
            Some(g) => if g.len() < 2 {
                Ok(LinkStep::OpenInBrowser(final_url))
            } else if g.len() < 3 || g[2] is None {
                Err(LinkError::MissingGroup)
            } else {
                Ok(LinkStep::Download(g[2]->0))
            },
        }
    }
}

/// The plan after a redirect was followed to `final_url`, given the groups of
/// the beatmap pattern in that address.
pub fn redirect_plan_from_groups(
    succeeded: bool,
    final_url: &str,
    groups: Option<Vec<Option<String>>>,
) -> (res: Result<LinkAction, LinkError>)
    ensures
        plan_result_view(res) == spec_plan_after_redirect(
            succeeded,
            final_url@,
            opt_groups_view(groups),
        ),
{
    if !succeeded {
        return Ok(LinkAction::Skip);
    }
    match groups {
        None => Err(LinkError::RedirectNotBeatmap),
        Some(g) => {
            if g.len() < 2 {
                Ok(LinkAction::OpenInBrowser(final_url.to_string()))
            } else if g.len() < 3 {
                Err(LinkError::MissingGroup)
            } else {
                match &g[2] {
                    Some(id) => Ok(LinkAction::Download(id.clone())),
                    None => Err(LinkError::MissingGroup),
                }
            }
        },
    }
}

/// The plan once the request for a `beatmaps` link has finished, successfully
/// or not, at `final_url`.
pub fn plan_after_redirect(succeeded: bool, final_url: &str) -> (res: Result<LinkAction, LinkError>)
    ensures
        !succeeded ==> plan_result_view(res) == Ok::<LinkStep, LinkError>(LinkStep::Skip),
        succeeded ==> plan_result_view(res) == spec_plan_after_redirect(
            succeeded,
            final_url@,
            regex_captures(BEATMAP_LINK_PATTERN@, final_url@),
        ),
{
    if !succeeded {
        return Ok(LinkAction::Skip);
    }
    let groups = captures(BEATMAP_LINK_PATTERN, final_url);
    redirect_plan_from_groups(succeeded, final_url, groups)
}

/// The plan once a download was tried: open the downloaded file in osu!, or,
/// where nothing was downloaded, open the original link in the browser. On a
/// dry run osu! is not launched: a downloaded file is left where it is.
pub fn plan_after_download(url: &str, downloaded: Option<String>, dry_run: bool) -> (res: LinkAction)
    ensures
        res@ == match opt_view(downloaded) {
            Some(path) => if dry_run {
                LinkStep::Skip
            } else {
                LinkStep::OpenBeatmap(path)
            },
            None => LinkStep::OpenInBrowser(url@),
        },
{
    match downloaded {
        Some(path) => if dry_run {
            LinkAction::Skip
        } else {
            LinkAction::OpenBeatmap(path)
        },
        None => LinkAction::OpenInBrowser(url.to_string()),
    }
}

/// Where the pattern matched with both groups, a set page (group 1 anything
/// but `beatmaps`) downloads the set whose id is the full text of group 2,
/// whatever its length or content, and a difficulty page is followed.
pub proof fn lemma_match_downloads_its_set(url: Seq<char>, g: Seq<Option<Seq<char>>>)
    requires
        g.len() >= 3,
        g[1] is Some,
        g[2] is Some,
    ensures
        g[1]->0 != "beatmaps"@ ==> spec_plan_from_groups(url, Some(g)) == Ok::<LinkStep, LinkError>(
            LinkStep::Download(g[2]->0),
        ),
        g[1]->0 == "beatmaps"@ ==> spec_plan_from_groups(url, Some(g)) == Ok::<
            LinkStep,
            LinkError,
        >(LinkStep::FollowRedirect(url)),
{
}

/// After a successful redirect to an address in which the pattern found
/// group 2, the set whose id is the full text of group 2 is downloaded; a
/// failed redirect drops the link, whatever the address.
pub proof fn lemma_redirect_downloads_its_set(
    succeeded: bool,
    final_url: Seq<char>,
    groups: Option<Seq<Option<Seq<char>>>>,
)
    ensures
        !succeeded ==> spec_plan_after_redirect(succeeded, final_url, groups) == Ok::<
            LinkStep,
            LinkError,
        >(LinkStep::Skip),
        succeeded && (groups matches Some(g) && g.len() >= 3 && g[2] is Some) ==> spec_plan_after_redirect(
            succeeded,
            final_url,
            groups,
        ) == Ok::<LinkStep, LinkError>(LinkStep::Download(groups->0[2]->0)),
{
}

} // verus!
