//! Local document conversion with pandoc: output naming and the command.
use vstd::prelude::*;
use crate::common::ffmpeg::or_default;
use crate::config::watch::DocumentRule;
use crate::processor::{bare_ext, make_naming, naming_is, Naming};
use crate::text::{append, decimal, decimal_string, owned, push_str, views};

verus! {

/// Document output: `.pdf` and `{base}_converted.{ext}` by default, with
/// `document` as codec and counter label.
pub fn document_naming(rule: &DocumentRule) -> (r: Naming)
    ensures
        naming_is(
            r,
            bare_ext(rule.output_ext, ".pdf"@),
            or_default(rule.output_name, "{base}_converted.{ext}"@),
            "document"@,
            "document"@,
        ),
{
    make_naming(&rule.output_ext, ".pdf", &rule.output_name, "{base}_converted.{ext}", "document", "document")
}

/// An optional setting as one `{prefix}{value}` argument.
pub open spec fn opt_flag(prefix: Seq<char>, o: Option<String>) -> Seq<Seq<char>> {
    match o {
        Some(v) => seq![prefix + v@],
        None => Seq::empty(),
    }
}

/// The pandoc arguments converting `input` to `output`: the table of
/// contents and its depth, the stylesheet, the template, standalone
/// output, each metadata entry as `-M`, the PDF engine, then the rule's own
/// options.
pub open spec fn pandoc_args(rule: DocumentRule, input: Seq<char>, output: Seq<char>) -> Seq<Seq<char>> {
    seq![input, "-o"@, output] + (if rule.toc == Some(true) {
        seq!["--toc"@]
    } else {
        Seq::empty()
    }) + (match rule.toc_depth {
        Some(d) => seq!["--toc-depth="@ + decimal(d as nat)],
        None => Seq::empty(),
    }) + opt_flag("--css="@, rule.css) + opt_flag("--template="@, rule.template) + (if rule.standalone
        == Some(true) {
        seq!["-s"@]
    } else {
        Seq::empty()
    }) + (match rule.metadata {
        Some(m) => views(m@).map_values(|x: Seq<char>| "-M"@ + x),
        None => Seq::empty(),
    }) + opt_flag("--pdf-engine="@, rule.pdf_engine) + (match rule.options {
        Some(o) => views(o@),
        None => Seq::empty(),
    })
}

fn push_flag(args: &mut Vec<String>, prefix: &str, o: &Option<String>)
    ensures
        views(final(args)@) == views(old(args)@) + opt_flag(prefix@, *o),
{
    match o {
        Some(v) => {
            let mut a = owned(prefix);
            append(&mut a, v.as_str());
            push_str(args, a.as_str());
        },
        None => {
            assert(views(args@) =~= views(args@) + Seq::<Seq<char>>::empty());
        },
    }
}

proof fn lemma_contains_concat(x: Seq<Seq<char>>, y: Seq<Seq<char>>, e: Seq<char>)
    ensures
        x.contains(e) ==> (x + y).contains(e),
        y.contains(e) ==> (x + y).contains(e),
{
    if x.contains(e) {
        let i = choose|i: int| 0 <= i < x.len() && x[i] == e;
        assert((x + y)[i] == e);
    }
    if y.contains(e) {
        let i = choose|i: int| 0 <= i < y.len() && y[i] == e;
        assert((x + y)[x.len() + i] == e);
    }
}

/// Every setting of a document rule reaches pandoc: the input comes first,
/// then `-o` and the output; a named stylesheet, template or PDF engine
/// appears as `--css=`, `--template=` or `--pdf-engine=` followed by its
/// name; a table of contents gives `--toc`, a depth `--toc-depth=` and the
/// number, standalone output `-s`; each metadata entry appears after `-M`,
/// and each extra option as given.
pub proof fn law_pandoc_settings(rule: DocumentRule, input: Seq<char>, output: Seq<char>)
    ensures
        ({
            let a = pandoc_args(rule, input, output);
            &&& a.len() >= 3 && a[0] == input && a[1] == "-o"@ && a[2] == output
            &&& rule.template matches Some(t) ==> a.contains("--template="@ + t@)
            &&& rule.css matches Some(c) ==> a.contains("--css="@ + c@)
            &&& rule.pdf_engine matches Some(e) ==> a.contains("--pdf-engine="@ + e@)
            &&& rule.toc == Some(true) ==> a.contains("--toc"@)
            &&& rule.toc_depth matches Some(d) ==> a.contains("--toc-depth="@ + decimal(d as nat))
            &&& rule.standalone == Some(true) ==> a.contains("-s"@)
            &&& rule.metadata matches Some(m) ==> forall|j: int|
                0 <= j < m@.len() ==> a.contains("-M"@ + (#[trigger] m@[j])@)
            &&& rule.options matches Some(o) ==> forall|j: int| 0 <= j < o@.len() ==> a.contains((#[trigger] o@[j])@)
        }),
{
    let s0 = seq![input, "-o"@, output];
    let s1 = if rule.toc == Some(true) {
        seq!["--toc"@]
    } else {
        Seq::<Seq<char>>::empty()
    };
    let s2 = match rule.toc_depth {
        Some(d) => seq!["--toc-depth="@ + decimal(d as nat)],
        None => Seq::<Seq<char>>::empty(),
    };
    let s3 = opt_flag("--css="@, rule.css);
    let s4 = opt_flag("--template="@, rule.template);
    let s5 = if rule.standalone == Some(true) {
        seq!["-s"@]
    } else {
        Seq::<Seq<char>>::empty()
    };
    let s6 = match rule.metadata {
        Some(m) => views(m@).map_values(|x: Seq<char>| "-M"@ + x),
        None => Seq::<Seq<char>>::empty(),
    };
    let s7 = opt_flag("--pdf-engine="@, rule.pdf_engine);
    let s8 = match rule.options {
        Some(o) => views(o@),
        None => Seq::<Seq<char>>::empty(),
    };
    let a = pandoc_args(rule, input, output);
    let p1 = s0 + s1;
    let p2 = p1 + s2;
    let p3 = p2 + s3;
    let p4 = p3 + s4;
    let p5 = p4 + s5;
    let p6 = p5 + s6;
    let p7 = p6 + s7;
    assert(a == p7 + s8);
    assert(a[0] == input && a[1] == "-o"@ && a[2] == output);
    if let Some(t) = rule.template {
        let e = "--template="@ + t@;
        assert(s4[0] == e);
        lemma_contains_concat(p3, s4, e);
        lemma_contains_concat(p4, s5, e);
        lemma_contains_concat(p5, s6, e);
        lemma_contains_concat(p6, s7, e);
        lemma_contains_concat(p7, s8, e);
    }
    if let Some(c) = rule.css {
        let e = "--css="@ + c@;
        assert(s3[0] == e);
        lemma_contains_concat(p2, s3, e);
        lemma_contains_concat(p3, s4, e);
        lemma_contains_concat(p4, s5, e);
        lemma_contains_concat(p5, s6, e);
        lemma_contains_concat(p6, s7, e);
        lemma_contains_concat(p7, s8, e);
    }
    if let Some(g) = rule.pdf_engine {
        let e = "--pdf-engine="@ + g@;
        assert(s7[0] == e);
        lemma_contains_concat(p6, s7, e);
        lemma_contains_concat(p7, s8, e);
    }
    if rule.toc == Some(true) {
        let e = "--toc"@;
        assert(s1[0] == e);
        lemma_contains_concat(s0, s1, e);
        lemma_contains_concat(p1, s2, e);
        lemma_contains_concat(p2, s3, e);
        lemma_contains_concat(p3, s4, e);
        lemma_contains_concat(p4, s5, e);
        lemma_contains_concat(p5, s6, e);
        lemma_contains_concat(p6, s7, e);
        lemma_contains_concat(p7, s8, e);
    }
    if let Some(d) = rule.toc_depth {
        let e = "--toc-depth="@ + decimal(d as nat);
        assert(s2[0] == e);
        lemma_contains_concat(p1, s2, e);
        lemma_contains_concat(p2, s3, e);
        lemma_contains_concat(p3, s4, e);
        lemma_contains_concat(p4, s5, e);
        lemma_contains_concat(p5, s6, e);
        lemma_contains_concat(p6, s7, e);
        lemma_contains_concat(p7, s8, e);
    }
    if rule.standalone == Some(true) {
        let e = "-s"@;
        assert(s5[0] == e);
        lemma_contains_concat(p4, s5, e);
        lemma_contains_concat(p5, s6, e);
        lemma_contains_concat(p6, s7, e);
        lemma_contains_concat(p7, s8, e);
    }
    if let Some(m) = rule.metadata {
        assert forall|j: int| 0 <= j < m@.len() implies a.contains("-M"@ + (#[trigger] m@[j])@) by {
            let e = "-M"@ + m@[j]@;
            assert(views(m@)[j] == m@[j]@);
            assert(s6[j] == e);
            lemma_contains_concat(p5, s6, e);
            lemma_contains_concat(p6, s7, e);
            lemma_contains_concat(p7, s8, e);
        }
    }
    if let Some(o) = rule.options {
        assert forall|j: int| 0 <= j < o@.len() implies a.contains((#[trigger] o@[j])@) by {
            let e = o@[j]@;
            assert(s8[j] == e);
            lemma_contains_concat(p7, s8, e);
        }
    }
}

/// The pandoc arguments of a document conversion.
pub fn pandoc_command_args(rule: &DocumentRule, input: &str, output: &str) -> (r: Vec<String>)
    ensures
        views(r@) == pandoc_args(*rule, input@, output@),
{
    let mut args: Vec<String> = Vec::new();
    push_str(&mut args, input);
    push_str(&mut args, "-o");
    push_str(&mut args, output);
    let ghost a0 = views(args@);
    if rule.toc == Some(true) {
        push_str(&mut args, "--toc");
    }
    let ghost a1 = views(args@);
    assert(a1 == a0 + (if rule.toc == Some(true) { seq!["--toc"@] } else { Seq::<Seq<char>>::empty() }));
    match rule.toc_depth {
        Some(d) => {
            let mut a = owned("--toc-depth=");
            let n = decimal_string(d as u64);
            append(&mut a, n.as_str());
            push_str(&mut args, a.as_str());
        },
        None => {},
    }
    let ghost a2 = views(args@);
    assert(a2 =~= a1 + match rule.toc_depth {
        Some(d) => seq!["--toc-depth="@ + decimal(d as nat)],
        None => Seq::<Seq<char>>::empty(),
    });
    push_flag(&mut args, "--css=", &rule.css);
    push_flag(&mut args, "--template=", &rule.template);
    let ghost a3 = views(args@);
    if rule.standalone == Some(true) {
        push_str(&mut args, "-s");
    }
    let ghost a4 = views(args@);
    assert(a4 =~= a3 + (if rule.standalone == Some(true) { seq!["-s"@] } else { Seq::<Seq<char>>::empty() }));
    match &rule.metadata {
        Some(m) => {
            let mut i: usize = 0;
            while i < m.len()
                invariant
                    i <= m@.len(),
                    views(args@) == a4 + views(m@).take(i as int).map_values(|x: Seq<char>| "-M"@ + x),
                decreases m@.len() - i,
            {
                let ghost before = views(args@);
                let mut a = owned("-M");
                append(&mut a, m[i].as_str());
                push_str(&mut args, a.as_str());
                proof {
                    assert(views(m@).take(i + 1) =~= views(m@).take(i as int).push(m@[i as int]@));
                    assert(views(m@).take(i + 1).map_values(|x: Seq<char>| "-M"@ + x) =~= views(m@).take(
                        i as int,
                    ).map_values(|x: Seq<char>| "-M"@ + x).push("-M"@ + m@[i as int]@));
                }
                i = i + 1;
            }
            assert(views(m@).take(m@.len() as int) =~= views(m@));
        },
        None => {
            assert(views(args@) =~= a4 + Seq::<Seq<char>>::empty());
        },
    }
    let ghost a5 = views(args@);
    push_flag(&mut args, "--pdf-engine=", &rule.pdf_engine);
    let ghost a6 = views(args@);
    match &rule.options {
        Some(o) => {
            let mut i: usize = 0;
            while i < o.len()
                invariant
                    i <= o@.len(),
                    views(args@) == a6 + views(o@).take(i as int),
                decreases o@.len() - i,
            {
                push_str(&mut args, o[i].as_str());
                proof {
                    assert(views(o@).take(i + 1) =~= views(o@).take(i as int).push(o@[i as int]@));
                }
                i = i + 1;
            }
            assert(views(o@).take(o@.len() as int) =~= views(o@));
        },
        None => {
            assert(views(args@) =~= a6 + Seq::<Seq<char>>::empty());
        },
    }
    proof {
        assert(a0 =~= seq![input@, "-o"@, output@]);
        assert(a3 == a2 + opt_flag("--css="@, rule.css) + opt_flag("--template="@, rule.template));
        assert(a6 == a5 + opt_flag("--pdf-engine="@, rule.pdf_engine));
    }
    assert(views(args@) =~= pandoc_args(*rule, input@, output@));
    args
}

} // verus!
