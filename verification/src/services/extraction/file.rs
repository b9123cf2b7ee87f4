//! Extracting files: locating glob matches inside a directory fetched from a
//! container, and summing up the outcome of an extraction.
use vstd::prelude::*;

use crate::services::extraction::glob_match::{
    compile_glob, glob_accepts, glob_error_text, glob_matches, glob_pattern_valid,
};
use crate::text::{has_prefix, replace_first, replace_first_str, segments, split_segments, str_equals, views};

verus! {

/// A path segment that names something: neither empty nor `.`.
pub open spec fn is_named_segment(seg: Seq<char>) -> bool {
    seg.len() > 0 && seg != seq!['.']
}

/// The last segment that names something.
pub open spec fn last_named_segment(segs: Seq<Seq<char>>) -> Option<Seq<char>>
    decreases segs.len(),
{
    if segs.len() == 0 {
        None
    } else if is_named_segment(segs.last()) {
        Some(segs.last())
    } else {
        last_named_segment(segs.drop_last())
    }
}

/// The last component of a Unix path, as `Path::components().last()` gives
/// it: the last segment other than an empty one or `.`; else `/` for a path
/// from the root, `.` for a path that starts with `.`; else none.
pub open spec fn last_component(path: Seq<char>) -> Option<Seq<char>> {
    match last_named_segment(segments(path)) {
        Some(seg) => Some(seg),
        None => if path.len() > 0 && path[0] == '/' {
            Some(seq!['/'])
        } else if segments(path)[0] == seq!['.'] {
            Some(seq!['.'])
        } else {
            None
        },
    }
}

/// The last component of a path.
pub fn last_component_of(path: &str) -> (r: Option<String>)
    ensures
        match r {
            Some(c) => last_component(path@) == Some(c@),
            None => last_component(path@) is None,
        },
{
    let segs = split_segments(path);
    proof {
        crate::text::lemma_segments_nonempty(path@);
        reveal_strlit(".");
        reveal_strlit("/");
    }
    let mut i: usize = segs.len();
    assert(segments(path@).subrange(0, i as int) =~= segments(path@));
    while i > 0
        invariant
            i <= segs@.len(),
            views(segs@) == segments(path@),
            last_named_segment(segments(path@)) == last_named_segment(
                segments(path@).subrange(0, i as int),
            ),
        decreases i,
    {
        let seg = segs[i - 1].as_str();
        proof {
            reveal_strlit(".");
            assert("."@ =~= seq!['.']);
        }
        let ghost prefix = segments(path@).subrange(0, i as int);
        assert(prefix.last() == seg@);
        assert(prefix.drop_last() =~= segments(path@).subrange(0, i - 1));
        if seg.unicode_len() > 0 && !str_equals(seg, ".") {
            return Some(String::from_str(seg));
        }
        i = i - 1;
    }
    assert(segments(path@).subrange(0, 0) =~= Seq::<Seq<char>>::empty());
    if path.unicode_len() > 0 && path.get_char(0) == '/' {
        proof {
            reveal_strlit("/");
            assert("/"@ =~= seq!['/']);
        }
        return Some(String::from_str("/"));
    }
    proof {
        reveal_strlit(".");
        assert("."@ =~= seq!['.']);
    }
    assert(segs@[0]@ == segments(path@)[0]);
    if str_equals(segs[0].as_str(), ".") {
        proof {
            reveal_strlit(".");
            assert("."@ =~= seq!['.']);
        }
        Some(String::from_str("."))
    } else {
        None
    }
}

/// `path` re-anchored at `source_path`: the first occurrence of the last
/// component of `source_path` is replaced by the whole `source_path`.
pub open spec fn reanchored(path: Seq<char>, source_path: Seq<char>) -> Seq<char> {
    replace_first(path, last_component(source_path).unwrap(), source_path)
}

/// Paths received from the Docker API are anchored at the last component of
/// the directory that was fetched: `dir/file1.txt` for a file of `/data/dir`.
/// Replaces that anchor by the full `source_path`: `/data/dir/file1.txt`.
pub fn reanchor_paths(paths: &Vec<String>, source_path: &str) -> (r: Vec<String>)
    requires
        last_component(source_path@) is Some,
    ensures
        views(r@) == views(paths@).map_values(|p: Seq<char>| reanchored(p, source_path@)),
{
    let last_dir = last_component_of(source_path).unwrap();
    let mut r: Vec<String> = Vec::new();
    let mut i: usize = 0;
    while i < paths.len()
        invariant
            i <= paths@.len(),
            last_component(source_path@) == Some(last_dir@),
            views(r@) == views(paths@).subrange(0, i as int).map_values(
                |p: Seq<char>| reanchored(p, source_path@),
            ),
        decreases paths@.len() - i,
    {
        let p = replace_first_str(paths[i].as_str(), last_dir.as_str(), source_path);
        let ghost old_r = r@;
        r.push(p);
        assert(views(r@) =~= views(paths@).subrange(0, i + 1).map_values(
            |p: Seq<char>| reanchored(p, source_path@),
        )) by {
            assert(views(r@) =~= views(old_r).push(p@));
        }
        i = i + 1;
    }
    assert(views(paths@).subrange(0, paths@.len() as int) =~= views(paths@));
    r
}

/// The paths that the pattern accepts, in their order.
pub open spec fn matching_paths(paths: Seq<Seq<char>>, pattern: Seq<char>) -> Seq<Seq<char>>
    decreases paths.len(),
{
    if paths.len() == 0 {
        paths
    } else if glob_matches(pattern, paths.last()) {
        matching_paths(paths.drop_last(), pattern).push(paths.last())
    } else {
        matching_paths(paths.drop_last(), pattern)
    }
}

/// Expands a glob pattern over the entries of the directory fetched for it:
/// re-anchors the entry paths at `source_path`, then keeps those the pattern
/// matches. Fails when the pattern does not compile, with the glob crate's
/// message for it.
pub fn expand_glob(pattern: &str, source_path: &str, entry_paths: &Vec<String>) -> (r: Result<
    Vec<String>,
    String,
>)
    requires
        last_component(source_path@) is Some,
    ensures
        r is Ok <==> glob_pattern_valid(pattern@),
        r matches Err(e) ==> e@ == glob_error_text(pattern@) && has_prefix(
            e@,
            "Pattern syntax error near position "@,
        ),
        r matches Ok(v) ==> views(v@) == matching_paths(
            views(entry_paths@).map_values(|p: Seq<char>| reanchored(p, source_path@)),
            pattern@,
        ),
{
    let reanchored_paths = reanchor_paths(entry_paths, source_path);
    let glob = compile_glob(pattern)?;
    let ghost all = views(reanchored_paths@);
    let mut kept: Vec<String> = Vec::new();
    let mut i: usize = 0;
    assert(all.subrange(0, 0) =~= Seq::<Seq<char>>::empty());
    assert(views(kept@) =~= Seq::<Seq<char>>::empty());
    while i < reanchored_paths.len()
        invariant
            i <= reanchored_paths@.len(),
            all == views(reanchored_paths@),
            glob.spec_source() == pattern@,
            views(kept@) == matching_paths(all.subrange(0, i as int), pattern@),
        decreases reanchored_paths@.len() - i,
    {
        let ghost before = all.subrange(0, i as int);
        let ghost after = all.subrange(0, i + 1);
        assert(after.drop_last() =~= before);
        assert(after.last() == reanchored_paths@[i as int]@);
        let ghost old_kept = kept@;
        if glob_accepts(&glob, reanchored_paths[i].as_str()) {
            kept.push(reanchored_paths[i].clone());
            assert(views(kept@) =~= views(old_kept).push(reanchored_paths@[i as int]@));
        }
        i = i + 1;
    }
    assert(all.subrange(0, all.len() as int) =~= all);
    Ok(kept)
}

/// The messages joined with `; ` between each two of them.
pub open spec fn joined_messages(messages: Seq<Seq<char>>) -> Seq<char>
    decreases messages.len(),
{
    if messages.len() == 0 {
        Seq::<char>::empty()
    } else if messages.len() == 1 {
        messages[0]
    } else {
        joined_messages(messages.drop_last()) + seq![';', ' '] + messages.last()
    }
}

/// The outcome of extracting a container's files: the staging directory
/// when every file was copied, else all the error messages joined with `; `.
pub fn extraction_outcome(staging_path: String, errors: &Vec<String>) -> (r: Result<String, String>)
    ensures
        errors@.len() == 0 ==> r == Ok::<String, String>(staging_path),
        errors@.len() > 0 ==> (r matches Err(e) && e@ == joined_messages(views(errors@))),
{
    if errors.len() == 0 {
        return Ok(staging_path);
    }
    let mut r = String::new();
    let mut i: usize = 0;
    assert(views(errors@).subrange(0, 0) =~= Seq::<Seq<char>>::empty());
    while i < errors.len()
        invariant
            i <= errors@.len(),
            r@ == joined_messages(views(errors@).subrange(0, i as int)),
        decreases errors@.len() - i,
    {
        let ghost before = views(errors@).subrange(0, i as int);
        let ghost after = views(errors@).subrange(0, i + 1);
        assert(after.drop_last() =~= before);
        if i > 0 {
            r.append("; ");
            proof {
                reveal_strlit("; ");
            }
        } else {
            assert(after =~= seq![errors@[0]@]);
        }
        r.append(errors[i].as_str());
        i = i + 1;
    }
    assert(views(errors@).subrange(0, errors@.len() as int) =~= views(errors@));
    Err(r)
}

} // verus!
