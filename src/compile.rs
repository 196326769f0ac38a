//! Command lines for the external document compiler and PDF encrypter.

use vstd::prelude::*;
use crate::doctype::{detect_document_type, document_type_for, lower_of, text_of};
use crate::templates::texts;

verus! {

/// What a user chose when asked how to protect a PDF.
#[derive(Debug, Clone)]
pub struct EncryptionOptions {
    pub user_password: String,
    pub allow_printing: bool,
    pub allow_copying: bool,
    pub allow_modification: bool,
}

/// `qpdf` arguments that encrypt `input` into `output` with AES-256, the
/// user password serving as owner password too, and a restriction for every
/// permission not granted.
pub open spec fn encrypt_arg_list(
    o: EncryptionOptions,
    input: Seq<char>,
    output: Seq<char>,
) -> Seq<Seq<char>> {
    seq!["--encrypt"@, o.user_password@, o.user_password@, "256"@] + (if o.allow_printing {
        Seq::empty()
    } else {
        seq!["--print=none"@]
    }) + (if o.allow_copying {
        Seq::empty()
    } else {
        seq!["--extract=n"@]
    }) + (if o.allow_modification {
        Seq::empty()
    } else {
        seq!["--modify=none"@]
    }) + seq!["--"@, input, output]
}

fn push_text(v: &mut Vec<String>, s: &str)
    ensures
        texts(final(v)@) == texts(old(v)@).push(s@),
{
    let ghost before = v@;
    v.push(String::from_str(s));
    assert(texts(v@) =~= texts(before).push(s@));
}

/// The `qpdf` arguments that encrypt `input` into `output`.
pub fn encrypt_args(options: &EncryptionOptions, input: &str, output: &str) -> (r: Vec<String>)
    ensures
        texts(r@) == encrypt_arg_list(*options, input@, output@),
{
    let mut args: Vec<String> = Vec::new();
    push_text(&mut args, "--encrypt");
    push_text(&mut args, options.user_password.as_str());
    push_text(&mut args, options.user_password.as_str());
    push_text(&mut args, "256");
    if !options.allow_printing {
        push_text(&mut args, "--print=none");
    }
    if !options.allow_copying {
        push_text(&mut args, "--extract=n");
    }
    if !options.allow_modification {
        push_text(&mut args, "--modify=none");
    }
    push_text(&mut args, "--");
    push_text(&mut args, input);
    push_text(&mut args, output);
    assert(texts(args@) =~= encrypt_arg_list(*options, input@, output@));
    args
}

/// The template type used for a data file: the one asked for, else the one
/// its lowercased path suggests, else `invoice`.
pub open spec fn chosen_type(template: Option<Seq<char>>, lowered_path: Seq<char>) -> Seq<char> {
    match template {
        Some(t) => t,
        None => match document_type_for(lowered_path) {
            Some(t) => t,
            None => "invoice"@,
        },
    }
}

/// `typst` arguments that compile `input` into `output` from the project
/// root, with the company data and the locale of language `lang` as inputs.
/// A Typst source compiles directly; a data file is handed to the standard
/// template of type `doc_type`.
pub open spec fn compile_arg_list(
    input: Seq<char>,
    output: Seq<char>,
    typst_source: bool,
    doc_type: Seq<char>,
    lang: Seq<char>,
) -> Seq<Seq<char>> {
    let company = "company=/data/company.json"@;
    let locale = "locale=/locale/"@ + lang + ".json"@;
    if typst_source {
        seq!["compile"@, "--root"@, "."@, input, "--input"@, company, "--input"@, locale, output]
    } else {
        seq![
            "compile"@,
            "--root"@,
            "."@,
            ".docgen/templates/"@ + doc_type + "/default.typ"@,
            "--input"@,
            "data=/"@ + input,
            "--input"@,
            company,
            "--input"@,
            locale,
            output,
        ]
    }
}

fn joined(a: &str, b: &str, c: &str) -> (r: String)
    ensures
        r@ == a@ + b@ + c@,
{
    let mut s = String::from_str(a);
    s.append(b);
    s.append(c);
    s
}

/// The `typst` arguments that compile `input` into `output`. For a data
/// file the template type is `template` when given, else the one the path
/// suggests, else `invoice`.
pub fn compile_args(
    input: &str,
    output: &str,
    typst_source: bool,
    template: Option<String>,
    lang: &str,
) -> (r: Vec<String>)
    ensures
        texts(r@) == compile_arg_list(
            input@,
            output@,
            typst_source,
            chosen_type(text_of(template), lower_of(input@)),
            lang@,
        ),
{
    let mut args: Vec<String> = Vec::new();
    push_text(&mut args, "compile");
    push_text(&mut args, "--root");
    push_text(&mut args, ".");
    let company = String::from_str("company=/data/company.json");
    let locale = joined("locale=/locale/", lang, ".json");
    let ghost doc_type = chosen_type(text_of(template), lower_of(input@));
    if typst_source {
        push_text(&mut args, input);
    } else {
        let doc_type_text = match template {
            Some(t) => t,
            None => match detect_document_type(input) {
                Some(t) => t,
                None => String::from_str("invoice"),
            },
        };
        assert(doc_type_text@ == doc_type);
        push_text(&mut args, joined(".docgen/templates/", doc_type_text.as_str(), "/default.typ").as_str());
        push_text(&mut args, "--input");
        push_text(&mut args, joined("data=/", input, "").as_str());
    }
    push_text(&mut args, "--input");
    push_text(&mut args, company.as_str());
    push_text(&mut args, "--input");
    push_text(&mut args, locale.as_str());
    push_text(&mut args, output);
    proof {
        assert(("data=/"@ + input@ + ""@) =~= "data=/"@ + input@) by {
            reveal_strlit("");
        }
    }
    assert(texts(args@) =~= compile_arg_list(input@, output@, typst_source, doc_type, lang@));
    args
}

} // verus!
