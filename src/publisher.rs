//! Deciding how a selected file is published.

use vstd::prelude::*;

use crate::matcher::{Candidate, extension_of, find_last_dot, last_dot, lemma_last_dot_before, same_text};

verus! {

/// How the destination file is produced from the source.
#[derive(Debug, Clone, Copy, PartialEq, Eq, Structural)]
pub enum PublishMethod {
    /// Byte-for-byte copy, name unchanged.
    Copy,
    /// Stream copy of audio and video into another container by the converter.
    Convert,
}

/// What the caller is to do for one selected file.
pub struct PublishPlan {
    /// Path of the selected source file.
    pub source: String,
    /// File name of the result, directly under the destination root.
    pub dest_name: String,
    /// How the result is produced.
    pub method: PublishMethod,
}

/// Files in this container are repackaged before publication.
pub open spec fn needs_repackaging(name: Seq<char>) -> bool {
    extension_of(name) == Some(seq!['m', '2', 't', 's'])
}

/// The name under which a file is published: a repackaged file takes the
/// extension `mp4` in place of its own, any other keeps its name.
pub open spec fn published_name(name: Seq<char>) -> Seq<char> {
    if needs_repackaging(name) {
        name.subrange(0, last_dot(name)) + seq!['.', 'm', 'p', '4']
    } else {
        name
    }
}

/// The method by which a file of this name is published.
pub open spec fn method_for(name: Seq<char>) -> PublishMethod {
    if needs_repackaging(name) {
        PublishMethod::Convert
    } else {
        PublishMethod::Copy
    }
}

/// The converter's command line for `source` and `destination`: overwrite,
/// copy both streams unchanged.
pub open spec fn converter_command(source: Seq<char>, destination: Seq<char>) -> Seq<Seq<char>> {
    seq![
        "ffmpeg"@,
        "-y"@,
        "-i"@,
        source,
        "-c:v"@,
        "copy"@,
        "-c:a"@,
        "copy"@,
        destination,
    ]
}

/// Whether a file of this name is repackaged.
pub fn is_repackaged(name: &str) -> (r: bool)
    ensures
        r == needs_repackaging(name@),
{
    proof {
        lemma_last_dot_before(name@, name@.len() as int);
        reveal_strlit("m2ts");
        assert("m2ts"@ =~= seq!['m', '2', 't', 's']);
    }
    match find_last_dot(name) {
        Some(d) => {
            if d == 0 {
                false
            } else {
                let n = name.unicode_len();
                same_text(name.substring_char(d + 1, n), "m2ts")
            }
        },
        None => false,
    }
}

/// The name under which a file of this name is published.
pub fn published_file_name(name: &str) -> (r: String)
    ensures
        r@ == published_name(name@),
{
    proof {
        lemma_last_dot_before(name@, name@.len() as int);
        reveal_strlit(".mp4");
        assert(".mp4"@ =~= seq!['.', 'm', 'p', '4']);
    }
    if is_repackaged(name) {
        match find_last_dot(name) {
            Some(d) => String::from_str(name.substring_char(0, d)).concat(".mp4"),
            None => String::from_str(name),
        }
    } else {
        String::from_str(name)
    }
}

/// The plan for publishing the selected file.
pub fn plan_publish(selection: &Candidate) -> (r: PublishPlan)
    ensures
        r.source@ == selection.path@,
        r.dest_name@ == published_name(selection.file_name@),
        r.method == method_for(selection.file_name@),
{
    let method = if is_repackaged(selection.file_name.as_str()) {
        PublishMethod::Convert
    } else {
        PublishMethod::Copy
    };
    PublishPlan {
        source: selection.path.clone(),
        dest_name: published_file_name(selection.file_name.as_str()),
        method,
    }
}

/// The converter's command line, program first, as `converter_command` gives it.
pub fn converter_args(source: &str, destination: &str) -> (r: Vec<String>)
    ensures
        r@.map_values(|a: String| a@) == converter_command(source@, destination@),
{
    let r: Vec<String> = vec![
        String::from_str("ffmpeg"),
        String::from_str("-y"),
        String::from_str("-i"),
        String::from_str(source),
        String::from_str("-c:v"),
        String::from_str("copy"),
        String::from_str("-c:a"),
        String::from_str("copy"),
        String::from_str(destination),
    ];
    proof {
        assert(r@.map_values(|a: String| a@) =~= converter_command(source@, destination@));
    }
    r
}

} // verus!
