//! The address of the refresh endpoint.

use crate::text::{
    consists_of, law_trim_end_cuts_class, law_trim_end_leaves_rest, law_trim_start_cuts_class,
    law_trim_start_leaves_rest, lemma_trim_end_absorbs,
    lemma_trim_start_absorbs, trim_end, trim_end_matches, trim_start, trim_start_matches, CharClass,
};
use vstd::prelude::*;

verus! {

/// `refresh_path` below `base_url`: the two joined by a single slash, whatever
/// slashes the one ends and the other starts with.
pub open spec fn refresh_url(base_url: Seq<char>, refresh_path: Seq<char>) -> Seq<char> {
    trim_end(base_url, CharClass::Slash) + seq!['/'] + trim_start(refresh_path, CharClass::Slash)
}

/// Whether `back` and `front` are slashes only, `base` does not end with a slash
/// and `path` does not start with one. Any base URL is a `base` and a `back` in
/// just one way, and any refresh path a `front` and a `path`.
pub open spec fn are_parts(
    base: Seq<char>,
    back: Seq<char>,
    front: Seq<char>,
    path: Seq<char>,
) -> bool {
    &&& base.len() > 0 ==> base[base.len() - 1] != '/'
    &&& forall|i: int| 0 <= i < back.len() ==> #[trigger] back[i] == '/'
    &&& forall|i: int| 0 <= i < front.len() ==> #[trigger] front[i] == '/'
    &&& path.len() > 0 ==> path[0] != '/'
}

/// Joins the base URL of a provider and the path of its refresh endpoint.
pub fn build_refresh_url(base_url: &str, refresh_path: &str) -> (url: String)
    ensures
        url@ == refresh_url(base_url@, refresh_path@),
        forall|base: Seq<char>, back: Seq<char>, front: Seq<char>, path: Seq<char>|
            #![trigger base + back, front + path]
            base_url@ == base + back && refresh_path@ == front + path && are_parts(
                base,
                back,
                front,
                path,
            ) ==> url@ == base + seq!['/'] + path,
{
    proof {
        assert forall|base: Seq<char>, back: Seq<char>, front: Seq<char>, path: Seq<char>|
            #![trigger base + back, front + path]
            base_url@ == base + back && refresh_path@ == front + path && are_parts(
                base,
                back,
                front,
                path,
            ) implies refresh_url(base_url@, refresh_path@) == base + seq!['/'] + path by {
            law_url_joins_parts(base, back, front, path);
        }
    }
    let mut url = trim_end_matches(base_url, CharClass::Slash).to_owned();
    proof {
        reveal_strlit("/");
        assert("/"@ =~= seq!['/']);
    }
    url.append("/");
    url.append(trim_start_matches(refresh_path, CharClass::Slash));
    url
}

/// The address is the base URL without the slashes behind it, a slash, and the
/// refresh path without the slashes in front of it.
pub proof fn law_url_joins_parts(
    base: Seq<char>,
    back: Seq<char>,
    front: Seq<char>,
    path: Seq<char>,
)
    requires
        base.len() > 0 ==> base[base.len() - 1] != '/',
        forall|i: int| 0 <= i < back.len() ==> #[trigger] back[i] == '/',
        forall|i: int| 0 <= i < front.len() ==> #[trigger] front[i] == '/',
        path.len() > 0 ==> path[0] != '/',
    ensures
        refresh_url(base + back, front + path) == base + seq!['/'] + path,
{
    law_trim_end_leaves_rest(base, back, CharClass::Slash);
    law_trim_start_leaves_rest(front, path, CharClass::Slash);
}

/// Every base URL and refresh path have such parts.
pub proof fn law_parts_exist(base_url: Seq<char>, refresh_path: Seq<char>) -> (parts: (
    Seq<char>,
    Seq<char>,
    Seq<char>,
    Seq<char>,
))
    ensures
        base_url == parts.0 + parts.1,
        refresh_path == parts.2 + parts.3,
        are_parts(parts.0, parts.1, parts.2, parts.3),
{
    let back = law_trim_end_cuts_class(base_url, CharClass::Slash);
    let front = law_trim_start_cuts_class(refresh_path, CharClass::Slash);
    assert forall|i: int| 0 <= i < back.len() implies #[trigger] back[i] == '/' by {
        assert(CharClass::Slash.has(back[i]));
    }
    assert forall|i: int| 0 <= i < front.len() implies #[trigger] front[i] == '/' by {
        assert(CharClass::Slash.has(front[i]));
    }
    (
        trim_end(base_url, CharClass::Slash),
        back,
        front,
        trim_start(refresh_path, CharClass::Slash),
    )
}

/// Below one base URL, two refresh paths have the same address only if they are
/// the same but for slashes in front.
pub proof fn law_paths_have_their_own_url(
    base_url: Seq<char>,
    front: Seq<char>,
    path: Seq<char>,
    other_front: Seq<char>,
    other_path: Seq<char>,
)
    requires
        forall|i: int| 0 <= i < front.len() ==> #[trigger] front[i] == '/',
        path.len() > 0 ==> path[0] != '/',
        forall|i: int| 0 <= i < other_front.len() ==> #[trigger] other_front[i] == '/',
        other_path.len() > 0 ==> other_path[0] != '/',
        refresh_url(base_url, front + path) == refresh_url(base_url, other_front + other_path),
    ensures
        path == other_path,
{
    let (base, back, _, _) = law_parts_exist(base_url, front + path);
    law_url_joins_parts(base, back, front, path);
    law_url_joins_parts(base, back, other_front, other_path);
    let head = base + seq!['/'];
    assert((head + path).skip(head.len() as int) =~= path);
    assert((head + other_path).skip(head.len() as int) =~= other_path);
}

/// More slashes where the two parts meet do not change the address.
pub proof fn law_slashes_at_seam_do_not_matter(
    base_url: Seq<char>,
    back: Seq<char>,
    front: Seq<char>,
    refresh_path: Seq<char>,
)
    requires
        consists_of(back, CharClass::Slash),
        consists_of(front, CharClass::Slash),
    ensures
        refresh_url(base_url + back, front + refresh_path) == refresh_url(base_url, refresh_path),
{
    lemma_trim_end_absorbs(base_url, back, CharClass::Slash);
    lemma_trim_start_absorbs(front, refresh_path, CharClass::Slash);
}

/// Where the two parts meet there is one slash, with no other next to it.
pub proof fn law_one_slash_at_seam(base_url: Seq<char>, refresh_path: Seq<char>)
    ensures
        ({
            let url = refresh_url(base_url, refresh_path);
            let seam = trim_end(base_url, CharClass::Slash).len() as int;
            &&& seam < url.len()
            &&& url[seam] == '/'
            &&& seam > 0 ==> url[seam - 1] != '/'
            &&& seam + 1 < url.len() ==> url[seam + 1] != '/'
        }),
{
    let _ = law_trim_end_cuts_class(base_url, CharClass::Slash);
    let _ = law_trim_start_cuts_class(refresh_path, CharClass::Slash);
}

} // verus!
