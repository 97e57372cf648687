//! Local PDF processing: output naming and the tool each mode runs.
use vstd::prelude::*;
use crate::common::ffmpeg::or_default;
use crate::config::watch::{PdfMode, PdfQuality, PdfRule};
use crate::paths::{path_with_extension, with_extension};
use crate::processor::{bare_ext, make_naming, naming_is, Naming};
use crate::text::{append, decimal, decimal_string, owned, push_str, str_eq, views};

verus! {

/// PDF output: `.pdf` and `{base}_converted.{ext}` by default, with `pdf`
/// as codec and counter label.
pub fn pdf_naming(rule: &PdfRule) -> (r: Naming)
    ensures
        naming_is(
            r,
            bare_ext(rule.output_ext, ".pdf"@),
            or_default(rule.output_name, "{base}_converted.{ext}"@),
            "pdf"@,
            "pdf"@,
        ),
{
    make_naming(&rule.output_ext, ".pdf", &rule.output_name, "{base}_converted.{ext}", "pdf", "pdf")
}

/// A program and its arguments.
#[derive(Debug, Clone)]
pub struct ToolCommand {
    pub program: String,
    pub args: Vec<String>,
}

/// Why a PDF mode cannot run.
#[derive(Debug, Clone, PartialEq, Eq)]
pub enum PdfError {
    /// Merging needs several inputs, not one file.
    MergeUnsupported,
    /// Rendering pages to images has no tool here.
    PagesToImagesUnsupported,
}

impl PdfError {
    pub open spec fn spec_message(&self) -> Seq<char> {
        match self {
            PdfError::MergeUnsupported => "PDF merge mode: place multiple PDFs in input folder"@,
            PdfError::PagesToImagesUnsupported => "PDF to images mode is not supported"@,
        }
    }

    /// Human-readable description.
    pub fn message(&self) -> (r: String)
        ensures
            r@ == self.spec_message(),
    {
        match self {
            PdfError::MergeUnsupported => owned("PDF merge mode: place multiple PDFs in input folder"),
            PdfError::PagesToImagesUnsupported => owned("PDF to images mode is not supported"),
        }
    }
}

/// The Ghostscript `PDFSETTINGS` of a quality (`/default` when none).
pub open spec fn quality_setting(q: Option<PdfQuality>) -> Seq<char> {
    match q {
        Some(PdfQuality::Screen) => "/screen"@,
        Some(PdfQuality::Ebook) => "/ebook"@,
        Some(PdfQuality::Printer) => "/printer"@,
        Some(PdfQuality::Prepress) => "/prepress"@,
        _ => "/default"@,
    }
}

/// The PDF/A level of a version: `3b` gives 3, `4` gives 4, anything
/// else 2.
pub open spec fn pdfa_level(v: Option<String>) -> Seq<char> {
    match v {
        Some(s) => if s@ == "3b"@ {
            "3"@
        } else if s@ == "4"@ {
            "4"@
        } else {
            "2"@
        },
        None => "2"@,
    }
}

/// The command a PDF rule runs on `input`, writing `output` (the mode is
/// `compress` when the rule has none).
pub open spec fn pdf_tool(rule: PdfRule, input: Seq<char>, output: Seq<char>) -> Result<(Seq<char>, Seq<Seq<char>>), PdfError> {
    let mode = match rule.mode {
        Some(m) => m,
        None => PdfMode::Compress,
    };
    match mode {
        PdfMode::Compress => Ok(
            (
                "gs"@,
                seq![
                    "-sDEVICE=pdfwrite"@,
                    "-dCompatibilityLevel=1.4"@,
                    "-dPDFSETTINGS="@ + quality_setting(rule.quality),
                    "-dNOPAUSE"@,
                    "-dQUIET"@,
                    "-dBATCH"@,
                    "-sOutputFile="@ + output,
                    input,
                ],
            ),
        ),
        PdfMode::PdfA => Ok(
            (
                "gs"@,
                seq![
                    "-sDEVICE=pdfwrite"@,
                    "-dPDFA="@ + pdfa_level(rule.pdfa_version),
                    "-dPDFACompatibilityPolicy=1"@,
                    "-dNOPAUSE"@,
                    "-dQUIET"@,
                    "-dBATCH"@,
                    "-sOutputFile="@ + output,
                    input,
                ],
            ),
        ),
        PdfMode::ExtractText => Ok(("pdftotext"@, seq![input, output])),
        PdfMode::ExtractImages => Ok(
            (
                "pdfimages"@,
                seq![
                    "-png"@,
                    "-r"@,
                    decimal(
                        match rule.resolution {
                            Some(r) => r,
                            None => 300,
                        } as nat,
                    ),
                    input,
                    with_extension(output, Seq::empty()),
                ],
            ),
        ),
        PdfMode::ImageToPdf => Ok(("img2pdf"@, seq![input, "-o"@, output])),
        PdfMode::PdfToImages => Err(PdfError::PagesToImagesUnsupported),
        PdfMode::Merge => Err(PdfError::MergeUnsupported),
        PdfMode::Linearize => Ok(("qpdf"@, seq!["--linearize"@, input, output])),
        PdfMode::Encrypt => {
            let pw = or_default(rule.password, "default"@);
            Ok(("qpdf"@, seq!["--encrypt"@, pw, pw, "256"@, "--"@, input, output]))
        },
        PdfMode::Decrypt => Ok(
            (
                "qpdf"@,
                seq!["--decrypt"@] + (match rule.password {
                    Some(p) => seq!["--password="@ + p@],
                    None => Seq::empty(),
                }) + seq![input, output],
            ),
        ),
        PdfMode::Analyze => Ok(("pdfinfo"@, seq![input])),
    }
}

fn prefixed(prefix: &str, value: &str) -> (r: String)
    ensures
        r@ == prefix@ + value@,
{
    let mut r = owned(prefix);
    append(&mut r, value);
    r
}

/// In compress mode (also the mode when the rule names none), the command is
/// Ghostscript, and its `-dPDFSETTINGS` is named after the quality: Screen,
/// Ebook, Printer and Prepress give `/screen`, `/ebook`, `/printer` and
/// `/prepress`, any other quality `/default`; each quality its own setting.
pub proof fn law_compress_quality_setting(rule: PdfRule, input: Seq<char>, output: Seq<char>)
    requires
        rule.mode is None || rule.mode == Some(PdfMode::Compress),
    ensures
        pdf_tool(rule, input, output) matches Ok((program, args)) && program == "gs"@ && args.len() > 2 && args[2]
            == match rule.quality {
            Some(PdfQuality::Screen) => "-dPDFSETTINGS=/screen"@,
            Some(PdfQuality::Ebook) => "-dPDFSETTINGS=/ebook"@,
            Some(PdfQuality::Printer) => "-dPDFSETTINGS=/printer"@,
            Some(PdfQuality::Prepress) => "-dPDFSETTINGS=/prepress"@,
            _ => "-dPDFSETTINGS=/default"@,
        },
{
    reveal_strlit("-dPDFSETTINGS=");
    reveal_strlit("/screen");
    reveal_strlit("/ebook");
    reveal_strlit("/printer");
    reveal_strlit("/prepress");
    reveal_strlit("/default");
    reveal_strlit("-dPDFSETTINGS=/screen");
    reveal_strlit("-dPDFSETTINGS=/ebook");
    reveal_strlit("-dPDFSETTINGS=/printer");
    reveal_strlit("-dPDFSETTINGS=/prepress");
    reveal_strlit("-dPDFSETTINGS=/default");
    assert("-dPDFSETTINGS="@ + "/screen"@ =~= "-dPDFSETTINGS=/screen"@);
    assert("-dPDFSETTINGS="@ + "/ebook"@ =~= "-dPDFSETTINGS=/ebook"@);
    assert("-dPDFSETTINGS="@ + "/printer"@ =~= "-dPDFSETTINGS=/printer"@);
    assert("-dPDFSETTINGS="@ + "/prepress"@ =~= "-dPDFSETTINGS=/prepress"@);
    assert("-dPDFSETTINGS="@ + "/default"@ =~= "-dPDFSETTINGS=/default"@);
}

/// The command a PDF rule runs on `input`, writing `output`.
pub fn pdf_command(rule: &PdfRule, input: &str, output: &str) -> (r: Result<ToolCommand, PdfError>)
    ensures
        match pdf_tool(*rule, input@, output@) {
            Ok((program, args)) => r matches Ok(c) && c.program@ == program && views(c.args@) == args,
            Err(e) => r == Err::<ToolCommand, PdfError>(e),
        },
{
    let mode = match rule.mode {
        Some(m) => m,
        None => PdfMode::Compress,
    };
    let mut args: Vec<String> = Vec::new();
    let program = match mode {
        PdfMode::Compress => {
            let setting = match rule.quality {
                Some(PdfQuality::Screen) => "/screen",
                Some(PdfQuality::Ebook) => "/ebook",
                Some(PdfQuality::Printer) => "/printer",
                Some(PdfQuality::Prepress) => "/prepress",
                _ => "/default",
            };
            push_str(&mut args, "-sDEVICE=pdfwrite");
            push_str(&mut args, "-dCompatibilityLevel=1.4");
            push_str(&mut args, prefixed("-dPDFSETTINGS=", setting).as_str());
            push_str(&mut args, "-dNOPAUSE");
            push_str(&mut args, "-dQUIET");
            push_str(&mut args, "-dBATCH");
            push_str(&mut args, prefixed("-sOutputFile=", output).as_str());
            push_str(&mut args, input);
            "gs"
        },
        PdfMode::PdfA => {
            let level = match &rule.pdfa_version {
                Some(v) => if str_eq(v.as_str(), "3b") {
                    "3"
                } else if str_eq(v.as_str(), "4") {
                    "4"
                } else {
                    "2"
                },
                None => "2",
            };
            push_str(&mut args, "-sDEVICE=pdfwrite");
            push_str(&mut args, prefixed("-dPDFA=", level).as_str());
            push_str(&mut args, "-dPDFACompatibilityPolicy=1");
            push_str(&mut args, "-dNOPAUSE");
            push_str(&mut args, "-dQUIET");
            push_str(&mut args, "-dBATCH");
            push_str(&mut args, prefixed("-sOutputFile=", output).as_str());
            push_str(&mut args, input);
            "gs"
        },
        PdfMode::ExtractText => {
            push_str(&mut args, input);
            push_str(&mut args, output);
            "pdftotext"
        },
        PdfMode::ExtractImages => {
            let dpi = match rule.resolution {
                Some(r) => r,
                None => 300,
            };
            push_str(&mut args, "-png");
            push_str(&mut args, "-r");
            push_str(&mut args, decimal_string(dpi as u64).as_str());
            push_str(&mut args, input);
            proof {
                reveal_strlit("");
                assert(""@ =~= Seq::<char>::empty());
            }
            push_str(&mut args, path_with_extension(output, "").as_str());
            "pdfimages"
        },
        PdfMode::ImageToPdf => {
            push_str(&mut args, input);
            push_str(&mut args, "-o");
            push_str(&mut args, output);
            "img2pdf"
        },
        PdfMode::PdfToImages => {
            return Err(PdfError::PagesToImagesUnsupported);
        },
        PdfMode::Merge => {
            return Err(PdfError::MergeUnsupported);
        },
        PdfMode::Linearize => {
            push_str(&mut args, "--linearize");
            push_str(&mut args, input);
            push_str(&mut args, output);
            "qpdf"
        },
        PdfMode::Encrypt => {
            let pw = match &rule.password {
                Some(p) => p.as_str(),
                None => "default",
            };
            push_str(&mut args, "--encrypt");
            push_str(&mut args, pw);
            push_str(&mut args, pw);
            push_str(&mut args, "256");
            push_str(&mut args, "--");
            push_str(&mut args, input);
            push_str(&mut args, output);
            "qpdf"
        },
        PdfMode::Decrypt => {
            push_str(&mut args, "--decrypt");
            match &rule.password {
                Some(p) => {
                    push_str(&mut args, prefixed("--password=", p.as_str()).as_str());
                },
                None => {},
            }
            push_str(&mut args, input);
            push_str(&mut args, output);
            "qpdf"
        },
        PdfMode::Analyze => {
            push_str(&mut args, input);
            "pdfinfo"
        },
    };
    proof {
        reveal_strlit("3b");
        reveal_strlit("4");
        match pdf_tool(*rule, input@, output@) {
            Ok((p, a)) => {
                assert(views(args@) =~= a);
            },
            Err(_) => {},
        }
    }
    Ok(ToolCommand { program: owned(program), args })
}


/// How a failure of a mode's tool is introduced in the error message.
pub open spec fn failure_label(mode: PdfMode) -> Seq<char> {
    match mode {
        PdfMode::Compress => "Ghostscript"@,
        PdfMode::PdfA => "Ghostscript PDF/A"@,
        PdfMode::ExtractText => "pdftotext"@,
        PdfMode::ExtractImages => "pdfimages"@,
        PdfMode::ImageToPdf => "img2pdf"@,
        PdfMode::Linearize => "qpdf linearize"@,
        PdfMode::Encrypt => "qpdf encrypt"@,
        PdfMode::Decrypt => "qpdf decrypt"@,
        PdfMode::Analyze => "pdfinfo"@,
        PdfMode::PdfToImages => "PDF"@,
        PdfMode::Merge => "PDF"@,
    }
}

/// The name a failed run of the rule's tool is reported under
/// (`{label} failed: {stderr}`).
pub fn pdf_failure_label(rule: &PdfRule) -> (r: &'static str)
    ensures
        r@ == failure_label(
            match rule.mode {
                Some(m) => m,
                None => PdfMode::Compress,
            },
        ),
{
    match rule.mode {
        Some(PdfMode::PdfA) => "Ghostscript PDF/A",
        Some(PdfMode::ExtractText) => "pdftotext",
        Some(PdfMode::ExtractImages) => "pdfimages",
        Some(PdfMode::ImageToPdf) => "img2pdf",
        Some(PdfMode::Linearize) => "qpdf linearize",
        Some(PdfMode::Encrypt) => "qpdf encrypt",
        Some(PdfMode::Decrypt) => "qpdf decrypt",
        Some(PdfMode::Analyze) => "pdfinfo",
        Some(PdfMode::PdfToImages) | Some(PdfMode::Merge) => "PDF",
        Some(PdfMode::Compress) | None => "Ghostscript",
    }
}

} // verus!
