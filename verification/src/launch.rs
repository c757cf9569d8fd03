use vstd::prelude::*;
use crate::text::opt_view;

verus! {

/// The settings file, next to the executable.
pub const CONFIG_FILE_NAME: &'static str = "osu_directer.json";

/// The name that the osu! executable is registered under.
pub const OSU_EXE_NAME: &'static str = "osu!.exe";

/// Where osu! is installed by default, below the user's local application data.
pub const DEFAULT_OSU_RELATIVE_PATH: &'static str = "osu!/osu!.exe";

/// The browsers looked for, in order, when none is configured.
pub fn browser_candidates() -> (names: Vec<&'static str>)
    ensures
        names@.map_values(|n: &'static str| n@) == seq!["firefox.exe"@, "chrome.exe"@, "msedge.exe"@],
{
    let mut names: Vec<&'static str> = Vec::new();
    names.push("firefox.exe");
    names.push("chrome.exe");
    names.push("msedge.exe");
    assert(names@.map_values(|n: &'static str| n@) =~= seq!["firefox.exe"@, "chrome.exe"@, "msedge.exe"@]);
    names
}

/// The first of the candidates that is present.
pub open spec fn spec_first_available(candidates: Seq<Option<Seq<char>>>) -> Option<Seq<char>>
    decreases candidates.len(),
{
    if candidates.len() == 0 {
        None
    } else if candidates[0] is Some {
        candidates[0]
    } else {
        spec_first_available(candidates.drop_first())
    }
}

/// The first present candidate is the result, whatever the candidates after
/// it are.
pub proof fn lemma_first_available_is_earliest(candidates: Seq<Option<Seq<char>>>, i: int)
    requires
        0 <= i < candidates.len(),
        candidates[i] is Some,
        forall|j: int| 0 <= j < i ==> #[trigger] candidates[j] is None,
    ensures
        spec_first_available(candidates) == candidates[i],
    decreases i,
{
    if i > 0 {
        let rest = candidates.drop_first();
        assert forall|j: int| 0 <= j < i - 1 implies #[trigger] rest[j] is None by {
            assert(rest[j] == candidates[j + 1]);
        }
        assert(candidates[0] is None);
        lemma_first_available_is_earliest(rest, i - 1);
    }
}

/// Where no candidate is present there is no result, and where there is a
/// result it is one of the candidates.
pub proof fn lemma_first_available_none(candidates: Seq<Option<Seq<char>>>)
    ensures
        (forall|j: int| 0 <= j < candidates.len() ==> #[trigger] candidates[j] is None)
            ==> spec_first_available(candidates) is None,
        spec_first_available(candidates) is Some ==> exists|j: int|
            0 <= j < candidates.len() && #[trigger] candidates[j] == spec_first_available(candidates),
    decreases candidates.len(),
{
    if candidates.len() > 0 {
        let rest = candidates.drop_first();
        lemma_first_available_none(rest);
        if forall|j: int| 0 <= j < candidates.len() ==> #[trigger] candidates[j] is None {
            assert forall|j: int| 0 <= j < rest.len() implies #[trigger] rest[j] is None by {
                assert(rest[j] == candidates[j + 1]);
            }
        }
        if candidates[0] is None && spec_first_available(rest) is Some {
            let j = choose|j: int| 0 <= j < rest.len() && #[trigger] rest[j] == spec_first_available(rest);
            assert(candidates[j + 1] == rest[j]);
        }
    }
}

/// Optional strings, each taken by its characters.
pub open spec fn opts_view(candidates: Seq<Option<String>>) -> Seq<Option<Seq<char>>> {
    candidates.map_values(|c: Option<String>| opt_view(c))
}

/// The first of the candidates that is present, in the order given.
pub fn first_available(candidates: Vec<Option<String>>) -> (found: Option<String>)
    ensures
        opt_view(found) == spec_first_available(opts_view(candidates@)),
{
    let n: usize = candidates.len();
    let mut i: usize = 0;
    assert(opts_view(candidates@).subrange(0, n as int) == opts_view(candidates@));
    while i < n
        invariant
            n == candidates.len(),
            i <= n,
            spec_first_available(opts_view(candidates@)) == spec_first_available(
                opts_view(candidates@).subrange(i as int, n as int),
            ),
        decreases n - i,
    {
        let ghost rest = opts_view(candidates@).subrange(i as int, n as int);
        assert(rest.drop_first() == opts_view(candidates@).subrange(i + 1, n as int));
        match &candidates[i] {
            Some(c) => {
                return Some(c.clone());
            },
            None => {},
        }
        i = i + 1;
    }
    None
}

/// The browser to open links with: the configured one, or else the first of
/// the candidates that was found installed.
pub fn choose_browser(configured: Option<String>, found: Vec<Option<String>>) -> (browser: Option<String>)
    ensures
        opt_view(browser) == match opt_view(configured) {
            Some(b) => Some(b),
            None => spec_first_available(opts_view(found@)),
        },
        configured is Some ==> opt_view(browser) == opt_view(configured),
{
    match configured {
        Some(b) => Some(b),
        None => first_available(found),
    }
}

/// The osu! executable to open beatmaps with: the configured one, or else the
/// registered one, or else the one at the default place; each of the last two
/// only where it exists.
pub fn choose_osu_path(
    configured: Option<String>,
    registered: Option<String>,
    default_install: Option<String>,
) -> (osu: Option<String>)
    ensures
        opt_view(osu) == spec_first_available(
            seq![opt_view(configured), opt_view(registered), opt_view(default_install)],
        ),
        configured is Some ==> opt_view(osu) == opt_view(configured),
        configured is None && registered is Some ==> opt_view(osu) == opt_view(registered),
        configured is None && registered is None ==> opt_view(osu) == opt_view(default_install),
{
    let mut candidates: Vec<Option<String>> = Vec::new();
    candidates.push(configured);
    candidates.push(registered);
    candidates.push(default_install);
    let ghost c = seq![opt_view(configured), opt_view(registered), opt_view(default_install)];
    assert(opts_view(candidates@) =~= c);
    proof {
        if c[0] is Some {
            lemma_first_available_is_earliest(c, 0);
        } else if c[1] is Some {
            lemma_first_available_is_earliest(c, 1);
        } else if c[2] is Some {
            lemma_first_available_is_earliest(c, 2);
        } else {
            lemma_first_available_none(c);
        }
    }
    first_available(candidates)
}

} // verus!
