//! File names the commands derive from paths: the stem and the final
//! component, as std's `Path` reads them.
use vstd::prelude::*;

use crate::cli::image_command::{format_extension, Format, ImageArgs};
use crate::cli::json::string_views;
use crate::text::{chars_of, push_str, string_of};

verus! {

/// What std's `Path::file_stem` gives for a path, read as text: the final
/// component without its last extension.
pub uninterp spec fn spec_file_stem(path: Seq<char>) -> Option<Seq<char>>;

/// What std's `Path::file_name` gives for a path, read as text: the final
/// component, if the path does not end in `..`.
pub uninterp spec fn spec_file_name(path: Seq<char>) -> Option<Seq<char>>;

/// std's `Path::file_stem` on a path given as text; the stem of a `&str`
/// path is itself valid text, so reading it back loses nothing. What it
/// gives is named by [`spec_file_stem`], not stated.
#[verifier::external_body]
pub(crate) fn file_stem(path: &str) -> (r: Option<String>)
    ensures
        match spec_file_stem(path@) {
            Some(s) => r matches Some(x) && x@ == s,
            None => r is None,
        },
{
    match std::path::Path::new(path).file_stem() {
        Some(s) => Some(s.to_string_lossy().into_owned()),
        None => None,
    }
}

/// std's `Path::file_name` on a path given as text. What it gives is named
/// by [`spec_file_name`], not stated.
#[verifier::external_body]
pub(crate) fn file_name(path: &str) -> (r: Option<String>)
    ensures
        match spec_file_name(path@) {
            Some(s) => r matches Some(x) && x@ == s,
            None => r is None,
        },
{
    match std::path::Path::new(path).file_name() {
        Some(s) => Some(s.to_string_lossy().into_owned()),
        None => None,
    }
}

/// The default output name for a stem: the stem (or `out` when there is
/// none or it is empty), a dot, and the format's extension.
pub open spec fn output_name_of(stem: Option<Seq<char>>, format: Format) -> Seq<char> {
    (match stem {
        Some(s) => if s.len() > 0 {
            s
        } else {
            "out"@
        },
        None => "out"@,
    }) + "."@ + format_extension(format)
}

/// The default output name for an input's stem (see [`output_name_of`]).
pub fn output_name(stem: Option<String>, format: Format) -> (r: String)
    ensures
        r@ == output_name_of(
            match stem {
                Some(s) => Some(s@),
                None => None,
            },
            format,
        ),
{
    let mut out: Vec<char> = Vec::new();
    match &stem {
        Some(s) => {
            if chars_of(s.as_str()).len() > 0 {
                push_str(&mut out, s.as_str());
            } else {
                push_str(&mut out, "out");
            }
        },
        None => push_str(&mut out, "out"),
    }
    push_str(&mut out, ".");
    push_str(&mut out, format.extension());
    string_of(out.as_slice())
}

/// Default output path: the input's stem and the format's extension, in
/// the working directory.
pub fn default_output(input: &str, format: Format) -> (r: String)
    ensures
        r@ == output_name_of(spec_file_stem(input@), format),
{
    output_name(file_stem(input), format)
}

/// Where an input's native output goes: `-o` when given, else the
/// default output name.
pub open spec fn native_output_of(a: ImageArgs, input: Seq<char>) -> Seq<char> {
    match a.output {
        Some(o) => o@,
        None => output_name_of(spec_file_stem(input), a.format),
    }
}

/// Every input's native output path, in input order.
pub fn native_outputs(a: &ImageArgs) -> (r: Vec<String>)
    ensures
        r@.len() == a.inputs@.len(),
        forall|i: int| 0 <= i < r@.len() ==> #[trigger] r@[i]@ == native_output_of(*a, a.inputs@[i]@),
{
    let mut r: Vec<String> = Vec::new();
    let mut i: usize = 0;
    while i < a.inputs.len()
        invariant
            i <= a.inputs@.len(),
            r@.len() == i,
            forall|k: int| 0 <= k < i ==> #[trigger] r@[k]@ == native_output_of(*a, a.inputs@[k]@),
        decreases a.inputs@.len() - i,
    {
        let p = match &a.output {
            Some(o) => o.clone(),
            None => default_output(a.inputs[i].as_str(), a.format),
        };
        r.push(p);
        i += 1;
    }
    r
}

} // verus!
