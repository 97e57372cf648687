//! Output file naming: renders the name template and picks the first free
//! numbered path, refusing any name that could leave the output folder.
use vstd::prelude::*;
use crate::paths::{contains_parent_segment, has_parent_segment, has_root, inside, is_inside, is_rooted, join, join_path};
use crate::text::{append, decimal, decimal_string, owned, replace_all, replace_str};

verus! {

/// Why a name was refused.
#[derive(Debug, Clone, PartialEq, Eq)]
pub enum NamerError {
    /// The rendered file name is absolute.
    AbsoluteFilename(String),
    /// The rendered file name has a `..` component.
    FilenameTraversal(String),
    /// The joined output path has a `..` component.
    PathTraversal,
    /// The canonical parent of the output path is outside the canonical
    /// output folder.
    EscapesFolder(String, String),
    /// Every numbered name is taken.
    NoFreePath,
}

impl NamerError {
    /// Human-readable description.
    pub fn message(&self) -> (r: String)
        ensures
            r@ == self.spec_message(),
    {
        match self {
            NamerError::AbsoluteFilename(f) => {
                let mut m = owned("Output filename is absolute: '");
                append(&mut m, f.as_str());
                append(&mut m, "' (would escape output folder)");
                m
            },
            NamerError::FilenameTraversal(f) => {
                let mut m = owned("Output filename contains '..' traversal: '");
                append(&mut m, f.as_str());
                append(&mut m, "'");
                m
            },
            NamerError::PathTraversal => owned("Output path contains '..' traversal component"),
            NamerError::EscapesFolder(p, f) => {
                let mut m = owned("Output path escapes output folder: ");
                append(&mut m, p.as_str());
                append(&mut m, " not inside ");
                append(&mut m, f.as_str());
                m
            },
            NamerError::NoFreePath => owned("No free output path found in range"),
        }
    }

    pub open spec fn spec_message(&self) -> Seq<char> {
        match self {
            NamerError::AbsoluteFilename(f) => "Output filename is absolute: '"@ + f@
                + "' (would escape output folder)"@,
            NamerError::FilenameTraversal(f) => "Output filename contains '..' traversal: '"@
                + f@ + "'"@,
            NamerError::PathTraversal => "Output path contains '..' traversal component"@,
            NamerError::EscapesFolder(p, f) => "Output path escapes output folder: "@ + p@
                + " not inside "@ + f@,
            NamerError::NoFreePath => "No free output path found in range"@,
        }
    }
}

/// What the file system reports about a candidate output path.
#[derive(Debug, Clone)]
pub struct PathProbe {
    /// A file already exists at the path.
    pub exists: bool,
    /// The canonical form of the path's parent directory, where it resolves.
    pub canonical_parent: Option<String>,
}

/// Number of numbered names tried before giving up.
pub const NAME_ATTEMPTS: usize = 1000;

/// The file name the template gives for counter `num`: `{base}`, `{codec}`,
/// `{num}` and `{ext}` are substituted in that order.
pub open spec fn render_name(
    template: Seq<char>,
    base: Seq<char>,
    codec: Seq<char>,
    num: nat,
    ext: Seq<char>,
) -> Seq<char> {
    replace_all(
        replace_all(
            replace_all(replace_all(template, "{base}"@, base), "{codec}"@, codec),
            "{num}"@,
            decimal(num),
        ),
        "{ext}"@,
        ext,
    )
}

/// The file name check: not absolute and without a `..` component.
pub open spec fn filename_check(f: Seq<char>) -> Result<(), NamerError> {
    if has_root(f) {
        Err(NamerError::AbsoluteFilename(arbitrary_string_with(f)))
    } else if has_parent_segment(f) {
        Err(NamerError::FilenameTraversal(arbitrary_string_with(f)))
    } else {
        Ok(())
    }
}

/// Some `String` whose view is `s` (every character sequence is one).
pub open spec fn arbitrary_string_with(s: Seq<char>) -> String {
    choose|t: String| t@ == s
}

/// The outcome of the file name check, compared by kind and text.
pub open spec fn filename_check_matches(r: Result<(), NamerError>, f: Seq<char>) -> bool {
    match r {
        Ok(()) => !has_root(f) && !has_parent_segment(f),
        Err(NamerError::AbsoluteFilename(t)) => has_root(f) && t@ == f,
        Err(NamerError::FilenameTraversal(t)) => !has_root(f) && has_parent_segment(f) && t@ == f,
        Err(_) => false,
    }
}

/// The output path check: no `..` component, and where both canonical forms
/// are known, the parent lies inside the folder.
pub open spec fn output_path_ok(
    path: Seq<char>,
    canonical_folder: Option<Seq<char>>,
    canonical_parent: Option<Seq<char>>,
) -> bool {
    &&& !has_parent_segment(path)
    &&& match (canonical_folder, canonical_parent) {
        (Some(f), Some(p)) => inside(p, f),
        _ => true,
    }
}

pub open spec fn opt_view(o: Option<String>) -> Option<Seq<char>> {
    match o {
        Some(s) => Some(s@),
        None => None,
    }
}

/// The candidate output path for counter `num`.
pub open spec fn candidate(
    folder: Seq<char>,
    template: Seq<char>,
    base: Seq<char>,
    codec: Seq<char>,
    num: nat,
    ext: Seq<char>,
) -> Seq<char> {
    join(folder, render_name(template, base, codec, num, ext))
}

/// The probe may have reported `o` for the path `p`.
pub open spec fn probe_said<F: Fn(&String) -> PathProbe>(probe: F, p: Seq<char>, o: PathProbe) -> bool {
    exists|s: String| s@ == p && call_ensures(probe, (&s,), o)
}

/// Counter `num` was rejected: its name and path pass the checks and the
/// probe reported a file already there.
pub open spec fn slot_taken<F: Fn(&String) -> PathProbe>(
    probe: F,
    folder: Seq<char>,
    template: Seq<char>,
    base: Seq<char>,
    codec: Seq<char>,
    num: nat,
    ext: Seq<char>,
    canonical_folder: Option<Seq<char>>,
) -> bool {
    let f = render_name(template, base, codec, num, ext);
    let p = candidate(folder, template, base, codec, num, ext);
    &&& !has_root(f)
    &&& !has_parent_segment(f)
    &&& exists|o: PathProbe|
        probe_said(probe, p, o) && o.exists && output_path_ok(
            p,
            canonical_folder,
            opt_view(o.canonical_parent),
        )
}

/// The accepted path `p` is the candidate of the smallest counter not
/// reported taken.
pub open spec fn accepted_outcome<F: Fn(&String) -> PathProbe>(
    p: Seq<char>,
    probe: F,
    folder: Seq<char>,
    template: Seq<char>,
    base: Seq<char>,
    codec: Seq<char>,
    ext: Seq<char>,
    cf: Option<Seq<char>>,
) -> bool {
 exists|n: nat|
                        #![trigger candidate(folder, template, base, codec, n, ext)]
                        n < NAME_ATTEMPTS && p == candidate(
                            folder,
                            template,
                            base,
                            codec,
                            n,
                            ext,
                        ) && (forall|k: nat|
                            k < n ==> slot_taken(
                                probe,
                                folder,
                                template,
                                base,
                                codec,
                                k,
                                ext,
                                cf,
                            )) && !has_root(render_name(template, base, codec, n, ext))
                            && !has_parent_segment(render_name(template, base, codec, n, ext))
                            && exists|o: PathProbe|
                            probe_said(probe, p, o) && !o.exists && output_path_ok(
                                p,
                                cf,
                                opt_view(o.canonical_parent),
                            )
}

/// What `generate_path` promises: an accepted path is the candidate of the
/// smallest counter not reported taken; a refusal names the first failing
/// check (for the output path check, on what the probe reported).
pub open spec fn generate_outcome<F: Fn(&String) -> PathProbe>(
    r: Result<String, NamerError>,
    probe: F,
    folder: Seq<char>,
    template: Seq<char>,
    base: Seq<char>,
    codec: Seq<char>,
    ext: Seq<char>,
    cf: Option<Seq<char>>,
) -> bool {

                match r {
                    Ok(p) => accepted_outcome(p@, probe, folder, template, base, codec, ext, cf),
                    Err(NamerError::NoFreePath) => forall|k: nat|
                        k < NAME_ATTEMPTS ==> slot_taken(
                            probe,
                            folder,
                            template,
                            base,
                            codec,
                            k,
                            ext,
                            cf,
                        ),
                    Err(e) => exists|n: nat|
                        #![trigger render_name(template, base, codec, n, ext)]
                        n < NAME_ATTEMPTS && (forall|k: nat|
                            k < n ==> slot_taken(
                                probe,
                                folder,
                                template,
                                base,
                                codec,
                                k,
                                ext,
                                cf,
                            )) && ({
                            let f = render_name(template, base, codec, n, ext);
                            let p = candidate(folder, template, base, codec, n, ext);
                            ||| filename_check_matches(Err(e), f)
                            ||| (!has_root(f) && !has_parent_segment(f) && (e is PathTraversal
                                || e is EscapesFolder) && (e is PathTraversal <==> has_parent_segment(p))
                                && exists|o: PathProbe|
                                probe_said(probe, p, o) && !output_path_ok(p, cf, opt_view(o.canonical_parent)))
                        }),
                }
            }

/// The probe answers each path `p` with `answer(p)`.
pub open spec fn probe_answers_with<F: Fn(&String) -> PathProbe>(
    probe: F,
    answer: spec_fn(Seq<char>) -> PathProbe,
) -> bool {
    forall|s: String, o: PathProbe| #[trigger] call_ensures(probe, (&s,), o) ==> o == answer(s@)
}

/// Counter `n` passes every check: its file name is relative and has no
/// `..` component, and its path passes the output path check on the
/// probe's answer.
pub open spec fn slot_checks_pass(
    answer: spec_fn(Seq<char>) -> PathProbe,
    folder: Seq<char>,
    template: Seq<char>,
    base: Seq<char>,
    codec: Seq<char>,
    n: nat,
    ext: Seq<char>,
    cf: Option<Seq<char>>,
) -> bool {
    let f = render_name(template, base, codec, n, ext);
    let p = candidate(folder, template, base, codec, n, ext);
    &&& !has_root(f)
    &&& !has_parent_segment(f)
    &&& output_path_ok(p, cf, opt_view(answer(p).canonical_parent))
}

/// With a probe that answers from a fixed function of the path, and every
/// candidate below the attempt limit passing the checks, `generate_path`
/// succeeds exactly when some candidate below the limit is free, and then
/// gives the free candidate of the least counter.
pub proof fn law_generate_least_free<F: Fn(&String) -> PathProbe>(
    r: Result<String, NamerError>,
    probe: F,
    answer: spec_fn(Seq<char>) -> PathProbe,
    folder: Seq<char>,
    template: Seq<char>,
    base: Seq<char>,
    codec: Seq<char>,
    ext: Seq<char>,
    cf: Option<Seq<char>>,
)
    requires
        generate_outcome(r, probe, folder, template, base, codec, ext, cf),
        probe_answers_with(probe, answer),
        forall|n: nat| n < NAME_ATTEMPTS ==> #[trigger] slot_checks_pass(answer, folder, template, base, codec, n, ext, cf),
    ensures
        r is Ok <==> exists|n: nat|
            #![trigger candidate(folder, template, base, codec, n, ext)]
            n < NAME_ATTEMPTS && !answer(candidate(folder, template, base, codec, n, ext)).exists,
        r matches Ok(p) ==> exists|n: nat|
            #![trigger candidate(folder, template, base, codec, n, ext)]
            n < NAME_ATTEMPTS && p@ == candidate(folder, template, base, codec, n, ext) && !answer(
                candidate(folder, template, base, codec, n, ext),
            ).exists && forall|k: nat|
                k < n ==> #[trigger] answer(candidate(folder, template, base, codec, k, ext)).exists,
{
    assert forall|p: Seq<char>, o: PathProbe| #[trigger] probe_said(probe, p, o) implies o == answer(p) by {
        let s = choose|s: String| s@ == p && call_ensures(probe, (&s,), o);
    }
    assert forall|k: nat|
        #[trigger] slot_taken(probe, folder, template, base, codec, k, ext, cf) implies answer(
            candidate(folder, template, base, codec, k, ext),
        ).exists by {
        let p = candidate(folder, template, base, codec, k, ext);
        let o = choose|o: PathProbe| probe_said(probe, p, o) && o.exists && output_path_ok(
            p,
            cf,
            opt_view(o.canonical_parent),
        );
    }
    match r {
        Ok(p) => {
            let n = choose|n: nat|
                #![trigger candidate(folder, template, base, codec, n, ext)]
                n < NAME_ATTEMPTS && p@ == candidate(folder, template, base, codec, n, ext) && (forall|k: nat|
                    k < n ==> slot_taken(probe, folder, template, base, codec, k, ext, cf)) && !has_root(
                    render_name(template, base, codec, n, ext),
                ) && !has_parent_segment(render_name(template, base, codec, n, ext)) && exists|o: PathProbe|
                    probe_said(probe, p@, o) && !o.exists && output_path_ok(p@, cf, opt_view(o.canonical_parent));
            let o = choose|o: PathProbe|
                probe_said(probe, p@, o) && !o.exists && output_path_ok(p@, cf, opt_view(o.canonical_parent));
            assert(!answer(candidate(folder, template, base, codec, n, ext)).exists);
            assert forall|k: nat| k < n implies #[trigger] answer(candidate(folder, template, base, codec, k, ext)).exists by {
                assert(slot_taken(probe, folder, template, base, codec, k, ext, cf));
            }
        },
        Err(NamerError::NoFreePath) => {
            assert forall|n: nat| n < NAME_ATTEMPTS implies answer(
                #[trigger] candidate(folder, template, base, codec, n, ext),
            ).exists by {
                assert(slot_taken(probe, folder, template, base, codec, n, ext, cf));
            }
        },
        Err(e) => {
            let n = choose|n: nat|
                #![trigger render_name(template, base, codec, n, ext)]
                n < NAME_ATTEMPTS && (forall|k: nat|
                    k < n ==> slot_taken(probe, folder, template, base, codec, k, ext, cf)) && ({
                    let f = render_name(template, base, codec, n, ext);
                    let p = candidate(folder, template, base, codec, n, ext);
                    ||| filename_check_matches(Err(e), f)
                    ||| (!has_root(f) && !has_parent_segment(f) && (e is PathTraversal || e is EscapesFolder)
                        && (e is PathTraversal <==> has_parent_segment(p)) && exists|o: PathProbe|
                        probe_said(probe, p, o) && !output_path_ok(p, cf, opt_view(o.canonical_parent)))
                });
            assert(slot_checks_pass(answer, folder, template, base, codec, n, ext, cf));
            let p = candidate(folder, template, base, codec, n, ext);
            if exists|o: PathProbe| probe_said(probe, p, o) && !output_path_ok(p, cf, opt_view(o.canonical_parent)) {
                let o = choose|o: PathProbe|
                    probe_said(probe, p, o) && !output_path_ok(p, cf, opt_view(o.canonical_parent));
                assert(o == answer(p));
            }
            assert(false);
        },
    }
}

/// Checks that a file name cannot leave the folder it is joined to.
pub fn validate_filename(filename: &str) -> (r: Result<(), NamerError>)
    ensures
        filename_check_matches(r, filename@),
{
    if is_rooted(filename) {
        return Err(NamerError::AbsoluteFilename(owned(filename)));
    }
    if contains_parent_segment(filename) {
        return Err(NamerError::FilenameTraversal(owned(filename)));
    }
    Ok(())
}

/// Checks that `path` has no `..` component and, where both canonical forms
/// are known, that its parent resolves inside the output folder.
pub fn validate_output_path(
    path: &str,
    canonical_folder: Option<&str>,
    canonical_parent: Option<&str>,
) -> (r: Result<(), NamerError>)
    ensures
        r is Ok <==> output_path_ok(
            path@,
            match canonical_folder {
                Some(f) => Some(f@),
                None => None,
            },
            match canonical_parent {
                Some(p) => Some(p@),
                None => None,
            },
        ),
        r matches Err(e) ==> (e is PathTraversal || e is EscapesFolder),
        r matches Err(e) ==> (e is PathTraversal <==> has_parent_segment(path@)),
{
    if contains_parent_segment(path) {
        return Err(NamerError::PathTraversal);
    }
    match (canonical_folder, canonical_parent) {
        (Some(f), Some(p)) => {
            if !is_inside(p, f) {
                return Err(NamerError::EscapesFolder(owned(p), owned(f)));
            }
        },
        _ => {},
    }
    Ok(())
}

/// The file name for counter `num`.
pub fn render_filename(template: &str, base: &str, codec: &str, num: u64, ext: &str) -> (r: String)
    ensures
        r@ == render_name(template@, base@, codec@, num as nat, ext@),
{
    proof {
        reveal_strlit("{base}");
        reveal_strlit("{codec}");
        reveal_strlit("{num}");
        reveal_strlit("{ext}");
    }
    let a = replace_str(template, "{base}", base);
    let b = replace_str(a.as_str(), "{codec}", codec);
    let n = decimal_string(num);
    let c = replace_str(b.as_str(), "{num}", n.as_str());
    replace_str(c.as_str(), "{ext}", ext)
}

pub struct OutputNamer;

impl OutputNamer {
    /// Builds an output path from the template, substituting `{base}`,
    /// `{codec}`, `{ext}` and an increasing `{num}`, and returns the first
    /// candidate the probe reports free. A file name that is absolute or
    /// holds a `..` component, or a path whose parent resolves outside the
    /// output folder, is refused at once.
    pub fn generate_path<F: Fn(&String) -> PathProbe>(
        output_folder: &str,
        base_name: &str,
        template: &str,
        codec: &str,
        ext: &str,
        canonical_folder: Option<&str>,
        probe: F,
    ) -> (r: Result<String, NamerError>)
        requires
            forall|s: &String| call_requires(probe, (s,)),
        ensures
            generate_outcome(
                r,
                probe,
                output_folder@,
                template@,
                base_name@,
                codec@,
                ext@,
                match canonical_folder {
                    Some(f) => Some(f@),
                    None => None,
                },
            ),
    {
        let ghost cf = match canonical_folder {
            Some(f) => Some(f@),
            None => None,
        };
        let mut num: usize = 0;
        while num < NAME_ATTEMPTS
            invariant
                num <= NAME_ATTEMPTS,
                forall|s: &String| call_requires(probe, (s,)),
                cf == match canonical_folder {
                    Some(f) => Some(f@),
                    None => None,
                },
                forall|k: nat|
                    k < num ==> slot_taken(
                        probe,
                        output_folder@,
                        template@,
                        base_name@,
                        codec@,
                        k,
                        ext@,
                        cf,
                    ),
            decreases NAME_ATTEMPTS - num,
        {
            let filename = render_filename(template, base_name, codec, num as u64, ext);
            let checked = validate_filename(filename.as_str());
            if let Err(e) = checked {
                return Err(e);
            }
            let path = join_path(output_folder, filename.as_str());
            let pr = probe(&path);
            let parent_ref: Option<&str> = match &pr.canonical_parent {
                Some(p) => Some(p.as_str()),
                None => None,
            };
            let ok = validate_output_path(path.as_str(), canonical_folder, parent_ref);
            proof {
                assert(probe_said(probe, path@, pr));
                assert(opt_view(pr.canonical_parent) == match parent_ref {
                    Some(p) => Some(p@),
                    None => None,
                });
                assert(path@ == candidate(
                    output_folder@,
                    template@,
                    base_name@,
                    codec@,
                    num as nat,
                    ext@,
                ));
            }
            if let Err(e) = ok {
                return Err(e);
            }
            proof {
                assert(output_path_ok(path@, cf, opt_view(pr.canonical_parent)));
            }
            if !pr.exists {
                proof {
                    let n = num as nat;
                    let f = render_name(template@, base_name@, codec@, n, ext@);
                    assert(!has_root(f) && !has_parent_segment(f));
                    assert(exists|o: PathProbe|
                        probe_said(probe, path@, o) && !o.exists && output_path_ok(
                            path@,
                            cf,
                            opt_view(o.canonical_parent),
                        ));
                    assert(forall|k: nat|
                        k < n ==> slot_taken(
                            probe,
                            output_folder@,
                            template@,
                            base_name@,
                            codec@,
                            k,
                            ext@,
                            cf,
                        ));
                    assert(exists|n: nat|
                        #![trigger candidate(output_folder@, template@, base_name@, codec@, n, ext@)]
                        n < NAME_ATTEMPTS && path@ == candidate(
                            output_folder@,
                            template@,
                            base_name@,
                            codec@,
                            n,
                            ext@,
                        ) && (forall|k: nat|
                            k < n ==> slot_taken(
                                probe,
                                output_folder@,
                                template@,
                                base_name@,
                                codec@,
                                k,
                                ext@,
                                cf,
                            )) && !has_root(render_name(template@, base_name@, codec@, n, ext@))
                            && !has_parent_segment(render_name(template@, base_name@, codec@, n, ext@))
                            && exists|o: PathProbe|
                            probe_said(probe, path@, o) && !o.exists && output_path_ok(
                                path@,
                                cf,
                                opt_view(o.canonical_parent),
                            ));
                    assert(accepted_outcome(
                        path@,
                        probe,
                        output_folder@,
                        template@,
                        base_name@,
                        codec@,
                        ext@,
                        cf,
                    ));
                }
                return Ok(path);
            }
            proof {
                let n = num as nat;
                assert(slot_taken(
                    probe,
                    output_folder@,
                    template@,
                    base_name@,
                    codec@,
                    n,
                    ext@,
                    cf,
                ));
            }
            num = num + 1;
        }
        Err(NamerError::NoFreePath)
    }

    /// Picks `{base}_{codec}_{counter}.{ext}` for the first counter whose
    /// path the probe reports free; when all are taken, falls back to the
    /// current time in seconds as the counter.
    pub fn generate_with_counter<F: Fn(&String) -> bool>(
        output_folder: &str,
        base_name: &str,
        codec: &str,
        ext: &str,
        now_secs: u64,
        is_taken: F,
    ) -> (r: String)
        requires
            forall|s: &String| call_requires(is_taken, (s,)),
        ensures
            counter_outcome(r@, is_taken, output_folder@, base_name@, codec@, ext@, now_secs as nat),
    {
        let mut counter: usize = 0;
        while counter < NAME_ATTEMPTS
            invariant
                counter <= NAME_ATTEMPTS,
                forall|s: &String| call_requires(is_taken, (s,)),
                forall|k: nat|
                    k < counter ==> reported_existing(
                        is_taken,
                        join(output_folder@, counter_name(base_name@, codec@, k, ext@)),
                    ),
            decreases NAME_ATTEMPTS - counter,
        {
            let filename = counter_filename(base_name, codec, counter as u64, ext);
            let path = join_path(output_folder, filename.as_str());
            let taken = is_taken(&path);
            if !taken {
                proof {
                    assert(reported_free(is_taken, path@));
                    let n = counter as nat;
                    assert(path@ == join(output_folder@, counter_name(base_name@, codec@, n, ext@)));
                }
                return path;
            }
            proof {
                assert(reported_existing(is_taken, path@));
            }
            counter = counter + 1;
        }
        let filename = counter_filename(base_name, codec, now_secs, ext);
        join_path(output_folder, filename.as_str())
    }
}

/// What `generate_with_counter` promises: the path of the smallest counter
/// the probe reported free, or, when all were reported taken, the path with
/// the current time as counter.
pub open spec fn counter_outcome<F: Fn(&String) -> bool>(
    r: Seq<char>,
    is_taken: F,
    folder: Seq<char>,
    base: Seq<char>,
    codec: Seq<char>,
    ext: Seq<char>,
    now_secs: nat,
) -> bool {
    ||| exists|n: nat|
        #![trigger counter_name(base, codec, n, ext)]
        n < NAME_ATTEMPTS && r == join(folder, counter_name(base, codec, n, ext)) && (forall|k: nat|
            k < n ==> reported_existing(is_taken, join(folder, counter_name(base, codec, k, ext))))
            && reported_free(is_taken, r)
    ||| (forall|k: nat|
        k < NAME_ATTEMPTS ==> reported_existing(is_taken, join(folder, counter_name(base, codec, k, ext))))
        && r == join(folder, counter_name(base, codec, now_secs, ext))
}

/// The probe answers from the set `taken` of existing paths.
pub open spec fn answers_from<F: Fn(&String) -> bool>(is_taken: F, taken: Set<Seq<char>>) -> bool {
    forall|s: String, b: bool| #[trigger] call_ensures(is_taken, (&s,), b) ==> b == taken.contains(s@)
}

/// With a probe that answers from a fixed set of existing paths,
/// `generate_with_counter` gives the path of the least counter below the
/// attempt limit that is not taken, or the path with the current time as
/// counter when all of them are taken.
pub proof fn law_counter_least_free<F: Fn(&String) -> bool>(
    r: Seq<char>,
    is_taken: F,
    taken: Set<Seq<char>>,
    folder: Seq<char>,
    base: Seq<char>,
    codec: Seq<char>,
    ext: Seq<char>,
    now_secs: nat,
)
    requires
        counter_outcome(r, is_taken, folder, base, codec, ext, now_secs),
        answers_from(is_taken, taken),
    ensures
        forall|n: nat|
            #![trigger counter_name(base, codec, n, ext)]
            n < NAME_ATTEMPTS && !taken.contains(join(folder, counter_name(base, codec, n, ext))) && (forall|k: nat|
                k < n ==> taken.contains(#[trigger] join(folder, counter_name(base, codec, k, ext))))
                ==> r == join(folder, counter_name(base, codec, n, ext)),
        (forall|k: nat| k < NAME_ATTEMPTS ==> taken.contains(#[trigger] join(folder, counter_name(base, codec, k, ext))))
            ==> r == join(folder, counter_name(base, codec, now_secs, ext)),
{
    assert forall|p: Seq<char>| #[trigger] reported_existing(is_taken, p) implies taken.contains(p) by {
        let s = choose|s: String| s@ == p && call_ensures(is_taken, (&s,), true);
    }
    assert forall|p: Seq<char>| #[trigger] reported_free(is_taken, p) implies !taken.contains(p) by {
        let s = choose|s: String| s@ == p && call_ensures(is_taken, (&s,), false);
    }
    if exists|m: nat|
        #![trigger counter_name(base, codec, m, ext)]
        m < NAME_ATTEMPTS && r == join(folder, counter_name(base, codec, m, ext)) && (forall|k: nat|
            k < m ==> reported_existing(is_taken, join(folder, counter_name(base, codec, k, ext))))
            && reported_free(is_taken, r) {
        let m = choose|m: nat|
            #![trigger counter_name(base, codec, m, ext)]
            m < NAME_ATTEMPTS && r == join(folder, counter_name(base, codec, m, ext)) && (forall|k: nat|
                k < m ==> reported_existing(is_taken, join(folder, counter_name(base, codec, k, ext))))
                && reported_free(is_taken, r);
        assert(!taken.contains(r));
        assert forall|n: nat|
            #![trigger counter_name(base, codec, n, ext)]
            n < NAME_ATTEMPTS && !taken.contains(join(folder, counter_name(base, codec, n, ext))) && (forall|k: nat|
                k < n ==> taken.contains(#[trigger] join(folder, counter_name(base, codec, k, ext))))
                implies r == join(folder, counter_name(base, codec, n, ext)) by {
            if m < n {
                assert(taken.contains(join(folder, counter_name(base, codec, m, ext))));
            } else if n < m {
                assert(reported_existing(is_taken, join(folder, counter_name(base, codec, n, ext))));
            }
        }
        if forall|k: nat| k < NAME_ATTEMPTS ==> taken.contains(#[trigger] join(folder, counter_name(base, codec, k, ext))) {
            assert(taken.contains(join(folder, counter_name(base, codec, m, ext))));
        }
    } else {
        assert forall|n: nat|
            #![trigger counter_name(base, codec, n, ext)]
            n < NAME_ATTEMPTS && !taken.contains(join(folder, counter_name(base, codec, n, ext))) && (forall|k: nat|
                k < n ==> taken.contains(#[trigger] join(folder, counter_name(base, codec, k, ext))))
                implies r == join(folder, counter_name(base, codec, n, ext)) by {
            assert(reported_existing(is_taken, join(folder, counter_name(base, codec, n, ext))));
        }
    }
}

/// `{base}_{codec}_{n}.{ext}`.
pub open spec fn counter_name(base: Seq<char>, codec: Seq<char>, n: nat, ext: Seq<char>) -> Seq<char> {
    base + "_"@ + codec + "_"@ + decimal(n) + "."@ + ext
}

/// The existence probe may have reported a file at `p`.
pub open spec fn reported_existing<F: Fn(&String) -> bool>(is_taken: F, p: Seq<char>) -> bool {
    exists|s: String| s@ == p && call_ensures(is_taken, (&s,), true)
}

/// The existence probe may have reported no file at `p`.
pub open spec fn reported_free<F: Fn(&String) -> bool>(is_taken: F, p: Seq<char>) -> bool {
    exists|s: String| s@ == p && call_ensures(is_taken, (&s,), false)
}

/// `{base}_{codec}_{n}.{ext}`.
pub fn counter_filename(base: &str, codec: &str, n: u64, ext: &str) -> (r: String)
    ensures
        r@ == counter_name(base@, codec@, n as nat, ext@),
{
    let mut r = owned(base);
    append(&mut r, "_");
    append(&mut r, codec);
    append(&mut r, "_");
    let d = decimal_string(n);
    append(&mut r, d.as_str());
    append(&mut r, ".");
    append(&mut r, ext);
    r
}

} // verus!
