//! Custom command processor: turns the configured command template into an
//! argument vector, refusing any path traversal.
use vstd::prelude::*;
use crate::common::ffmpeg::{or_default, text_or};
use crate::config::watch::CustomRule;
use crate::processor::{bare_ext, make_naming, naming_is, Naming};
use crate::text::{append, contains_dotdot, has_dotdot, owned, replace_all, replace_str, split_words, trim_start_matches_char, views, words};
use crate::utils::path::{base_name, get_base_name};

verus! {

/// Why a custom command was refused.
#[derive(Debug)]
pub enum ExternalError {
    /// The template itself contains `..`.
    TemplateTraversal,
    /// A token contains `..` once the placeholders are filled in.
    TokenTraversal(String),
    /// The template has no tokens.
    EmptyCommand,
    /// The rule has no command.
    NoCommand,
}

impl ExternalError {
    pub open spec fn spec_message(&self) -> Seq<char> {
        match self {
            ExternalError::TemplateTraversal => "Template contains '..' path traversal"@,
            ExternalError::TokenTraversal(t) => "Expanded token '"@ + t@
                + "' contains '..' path traversal"@,
            ExternalError::EmptyCommand => "Empty command"@,
            ExternalError::NoCommand => "Custom rule has no command"@,
        }
    }

    /// Human-readable description.
    pub fn message(&self) -> (r: String)
        ensures
            r@ == self.spec_message(),
    {
        match self {
            ExternalError::TemplateTraversal => owned("Template contains '..' path traversal"),
            ExternalError::TokenTraversal(t) => {
                let mut m = owned("Expanded token '");
                append(&mut m, t.as_str());
                append(&mut m, "' contains '..' path traversal");
                m
            },
            ExternalError::EmptyCommand => owned("Empty command"),
            ExternalError::NoCommand => owned("Custom rule has no command"),
        }
    }
}

/// A template token with its placeholders filled in, in the order
/// `{input}`, `{output}`, `{basename}`, `{ext}`, `{output_folder}`.
pub open spec fn expand_token(
    t: Seq<char>,
    input: Seq<char>,
    output: Seq<char>,
    basename: Seq<char>,
    ext: Seq<char>,
    output_folder: Seq<char>,
) -> Seq<char> {
    replace_all(
        replace_all(
            replace_all(
                replace_all(replace_all(t, "{input}"@, input), "{output}"@, output),
                "{basename}"@,
                basename,
            ),
            "{ext}"@,
            ext,
        ),
        "{output_folder}"@,
        output_folder,
    )
}

/// The expanded tokens of `template`.
pub open spec fn expanded_argv(
    template: Seq<char>,
    input: Seq<char>,
    output: Seq<char>,
    basename: Seq<char>,
    ext: Seq<char>,
    output_folder: Seq<char>,
) -> Seq<Seq<char>> {
    words(template).map_values(
        |t: Seq<char>| expand_token(t, input, output, basename, ext, output_folder),
    )
}

/// Fills the placeholders of one token.
pub fn expand(
    t: &str,
    input: &str,
    output: &str,
    basename: &str,
    ext: &str,
    output_folder: &str,
) -> (r: String)
    ensures
        r@ == expand_token(t@, input@, output@, basename@, ext@, output_folder@),
{
    proof {
        reveal_strlit("{input}");
        reveal_strlit("{output}");
        reveal_strlit("{basename}");
        reveal_strlit("{ext}");
        reveal_strlit("{output_folder}");
    }
    let a = replace_str(t, "{input}", input);
    let b = replace_str(a.as_str(), "{output}", output);
    let c = replace_str(b.as_str(), "{basename}", basename);
    let d = replace_str(c.as_str(), "{ext}", ext);
    replace_str(d.as_str(), "{output_folder}", output_folder)
}

/// Splits the template into whitespace-separated tokens, then fills the
/// placeholders of each token separately, so a path holding spaces stays one
/// argument. Any expanded token holding `..` is refused.
pub fn build_argv(
    template: &str,
    input: &str,
    output: &str,
    basename: &str,
    ext: &str,
    output_folder: &str,
) -> (r: Result<Vec<String>, ExternalError>)
    ensures
        ({
            let all = expanded_argv(template@, input@, output@, basename@, ext@, output_folder@);
            match r {
                Ok(v) => views(v@) == all && forall|i: int|
                    0 <= i < all.len() ==> !has_dotdot(#[trigger] all[i]),
                Err(ExternalError::TokenTraversal(t)) => exists|i: int|
                    0 <= i < all.len() && t@ == all[i] && has_dotdot(#[trigger] all[i])
                        && forall|j: int| 0 <= j < i ==> !has_dotdot(#[trigger] all[j]),
                Err(_) => false,
            }
        }),
{
    let tokens = split_words(template);
    let ghost all = expanded_argv(template@, input@, output@, basename@, ext@, output_folder@);
    let mut argv: Vec<String> = Vec::new();
    let mut i: usize = 0;
    while i < tokens.len()
        invariant
            views(tokens@) == words(template@),
            all == expanded_argv(template@, input@, output@, basename@, ext@, output_folder@),
            all.len() == tokens@.len(),
            i <= tokens@.len(),
            views(argv@) == all.take(i as int),
            forall|j: int| 0 <= j < i ==> !has_dotdot(#[trigger] all[j]),
        decreases tokens.len() - i,
    {
        let replaced = expand(tokens[i].as_str(), input, output, basename, ext, output_folder);
        proof {
            assert(views(tokens@)[i as int] == tokens@[i as int]@);
            assert(replaced@ == all[i as int]);
        }
        if contains_dotdot(replaced.as_str()) {
            return Err(ExternalError::TokenTraversal(replaced));
        }
        let ghost before = argv@;
        argv.push(replaced);
        proof {
            assert(views(argv@) =~= views(before).push(replaced@));
            assert(all.take(i + 1) =~= all.take(i as int).push(all[i as int]));
        }
        i = i + 1;
    }
    proof {
        assert(all.take(i as int) =~= all);
    }
    Ok(argv)
}

/// Refuses a command template holding `..`.
pub fn validate_command_template(template: &str) -> (r: Result<(), ExternalError>)
    ensures
        r is Ok <==> !has_dotdot(template@),
        r matches Err(e) ==> e is TemplateTraversal,
{
    if contains_dotdot(template) {
        return Err(ExternalError::TemplateTraversal);
    }
    Ok(())
}

/// Custom output: `.mp4` and `{base}_custom.{ext}` by default, with
/// `custom` as codec and counter label.
pub fn custom_naming(rule: &CustomRule) -> (r: Naming)
    ensures
        naming_is(
            r,
            bare_ext(rule.output_ext, ".mp4"@),
            or_default(rule.output_name, "{base}_custom.{ext}"@),
            "custom"@,
            "custom"@,
        ),
{
    make_naming(&rule.output_ext, ".mp4", &rule.output_name, "{base}_custom.{ext}", "custom", "custom")
}

/// What running a custom rule on `input` (named `file_name`), writing
/// `output` into `output_folder`, amounts to: the rule's command with the
/// placeholders filled in, or the first reason it is refused.
pub open spec fn custom_outcome(
    r: Result<Vec<String>, ExternalError>,
    rule: CustomRule,
    input: Seq<char>,
    output: Seq<char>,
    output_folder: Seq<char>,
    file_name: Seq<char>,
) -> bool {
    match rule.command {
        None => r matches Err(ExternalError::NoCommand),
        Some(c) => if has_dotdot(c@) {
            r matches Err(ExternalError::TemplateTraversal)
        } else {
            let all = expanded_argv(
                c@,
                input,
                output,
                base_name(file_name),
                bare_ext(rule.output_ext, ".mp4"@),
                output_folder,
            );
            if exists|i: int| 0 <= i < all.len() && has_dotdot(#[trigger] all[i]) {
                r matches Err(ExternalError::TokenTraversal(t)) && exists|i: int|
                    0 <= i < all.len() && t@ == all[i] && has_dotdot(#[trigger] all[i]) && forall|j: int|
                        0 <= j < i ==> !has_dotdot(#[trigger] all[j])
            } else if all.len() == 0 {
                r matches Err(ExternalError::EmptyCommand)
            } else {
                r matches Ok(v) && views(v@) == all
            }
        },
    }
}

/// The argument vector a custom rule runs (program first).
pub fn custom_argv(
    rule: &CustomRule,
    input: &str,
    output: &str,
    output_folder: &str,
    file_name: &str,
) -> (r: Result<Vec<String>, ExternalError>)
    ensures
        custom_outcome(r, *rule, input@, output@, output_folder@, file_name@),
{
    let command = match &rule.command {
        Some(c) => c,
        None => {
            return Err(ExternalError::NoCommand);
        },
    };
    match validate_command_template(command.as_str()) {
        Ok(()) => {},
        Err(e) => {
            return Err(e);
        },
    }
    let basename = get_base_name(file_name);
    let ext = trim_start_matches_char(text_or(&rule.output_ext, ".mp4"), '.');
    let argv = build_argv(command.as_str(), input, output, basename.as_str(), ext.as_str(), output_folder);
    match argv {
        Ok(v) => {
            if v.len() == 0 {
                Err(ExternalError::EmptyCommand)
            } else {
                Ok(v)
            }
        },
        Err(e) => Err(e),
    }
}

} // verus!
