use vstd::prelude::*;
use crate::record::{parse_record_number, record_number_spec};

verus! {

/// Splits a target argument at its first `:` into the file name and the
/// name of the data stream; without `:` the stream name is empty, which
/// stands for the default stream.
pub fn split_stream(arg: &str) -> (r: (String, String))
    ensures
        !r.0@.contains(':'),
        arg@.contains(':') ==> arg@ == r.0@.push(':') + r.1@,
        !arg@.contains(':') ==> r.0@ == arg@ && r.1@ == Seq::<char>::empty(),
{
    let n = arg.unicode_len();
    let mut i: usize = 0;
    while i < n
        invariant
            n == arg@.len(),
            i <= n,
            forall|j: int| 0 <= j < i ==> arg@[j] != ':',
        decreases n - i,
    {
        if arg.get_char(i) == ':' {
            assert(!arg@.subrange(0, i as int).contains(':')) by {
                if arg@.subrange(0, i as int).contains(':') {
                    let k = choose|k: int| 0 <= k < i && arg@.subrange(0, i as int)[k] == ':';
                }
            }
            let name = String::from_str(arg.substring_char(0, i));
            let stream = String::from_str(arg.substring_char(i + 1, n));
            assert(arg@ =~= name@.push(':') + stream@);
            return (name, stream);
        }
        i = i + 1;
    }
    let name = String::from_str(arg);
    let stream = String::new();
    (name, stream)
}

/// The name of the output file: the file name for the default stream, and
/// `file_stream` for a named one, since an output name cannot hold `:`.
pub open spec fn output_name_spec(file_name: Seq<char>, stream: Seq<char>) -> Seq<char> {
    if stream.len() == 0 {
        file_name
    } else {
        file_name.push('_') + stream
    }
}

/// The name of the output file for `stream` of `file_name`.
pub fn output_file_name(file_name: &str, stream: &str) -> (r: String)
    ensures
        r@ == output_name_spec(file_name@, stream@),
{
    let mut r = String::from_str(file_name);
    if stream.unicode_len() > 0 {
        r.append("_");
        r.append(stream);
        proof {
            reveal_strlit("_");
        }
    }
    r
}

/// The path of the output file `name` inside the directory `output_dir`.
pub open spec fn destination_spec(output_dir: Seq<char>, name: Seq<char>) -> Seq<char> {
    output_dir.push('\\') + name
}

/// The path of the output file `name` inside the directory `output_dir`.
pub fn destination_path(output_dir: &str, name: &str) -> (r: String)
    ensures
        r@ == destination_spec(output_dir@, name@),
{
    let mut r = String::from_str(output_dir);
    r.append("\\");
    r.append(name);
    proof {
        reveal_strlit("\\");
    }
    r
}

/// What extracting one target into an output directory needs: the name of
/// the file to open, the data stream to copy, and where the copy goes.
pub struct ExtractPlan {
    pub file_name: String,
    pub stream_name: String,
    pub output_file_name: String,
    pub destination: String,
}

/// Plans the extraction of `target` (a file name, optionally followed by
/// `:` and a stream name) into `output_dir`.
pub fn plan_extraction(target: &str, output_dir: &str) -> (p: ExtractPlan)
    ensures
        !p.file_name@.contains(':'),
        target@.contains(':') ==> target@ == p.file_name@.push(':') + p.stream_name@,
        !target@.contains(':') ==> p.file_name@ == target@ && p.stream_name@ == Seq::<char>::empty(),
        p.output_file_name@ == output_name_spec(p.file_name@, p.stream_name@),
        p.destination@ == destination_spec(output_dir@, p.output_file_name@),
{
    let (file_name, stream_name) = split_stream(target);
    let output_file_name = output_file_name(file_name.as_str(), stream_name.as_str());
    let destination = destination_path(output_dir, output_file_name.as_str());
    ExtractPlan { file_name, stream_name, output_file_name, destination }
}

/// How the file to extract is named.
#[derive(Debug)]
pub enum FileArg {
    /// By its record number on the volume.
    Record(u64),
    /// By its name in the current directory.
    Name(String),
}

/// Why a file argument names no file.
#[derive(Clone, Copy, PartialEq, Eq, Structural, Debug)]
pub enum FileArgError {
    /// The argument is empty.
    MissingArgument,
    /// The text after `/` is not a record number.
    RecordNumberParse,
}

/// Reads a file argument: `/` followed by a record number (decimal, or
/// hexadecimal after `0x`), or a name to look up in the current directory.
pub fn parse_file_arg(arg: &str) -> (r: Result<FileArg, FileArgError>)
    ensures
        arg@.len() == 0 ==> r == Err::<FileArg, FileArgError>(FileArgError::MissingArgument),
        arg@.len() > 0 && arg@[0] == '/' ==> match record_number_spec(arg@.drop_first()) {
            Some(n) => r == Ok::<FileArg, FileArgError>(FileArg::Record(n)),
            None => r == Err::<FileArg, FileArgError>(FileArgError::RecordNumberParse),
        },
        arg@.len() > 0 && arg@[0] != '/' ==> (match r {
            Ok(FileArg::Name(name)) => name@ == arg@,
            _ => false,
        }),
{
    let n = arg.unicode_len();
    if n == 0 {
        return Err(FileArgError::MissingArgument);
    }
    if arg.get_char(0) == '/' {
        assert(arg@.subrange(1, n as int) =~= arg@.drop_first());
        match parse_record_number(arg.substring_char(1, n)) {
            Some(record) => Ok(FileArg::Record(record)),
            None => Err(FileArgError::RecordNumberParse),
        }
    } else {
        Ok(FileArg::Name(String::from_str(arg)))
    }
}

/// The line that lists one entry of a directory: `<DIR>` for a directory
/// and five spaces for a file, two spaces, then the name.
pub open spec fn listing_line_spec(is_directory: bool, name: Seq<char>) -> Seq<char> {
    (if is_directory {
        seq!['<', 'D', 'I', 'R', '>']
    } else {
        seq![' ', ' ', ' ', ' ', ' ']
    }) + seq![' ', ' '] + name
}

/// The line that lists one entry of a directory.
pub fn listing_line(is_directory: bool, name: &str) -> (r: String)
    ensures
        r@ == listing_line_spec(is_directory, name@),
{
    let mut r = if is_directory {
        String::from_str("<DIR>")
    } else {
        String::from_str("     ")
    };
    r.append("  ");
    r.append(name);
    proof {
        reveal_strlit("<DIR>");
        reveal_strlit("     ");
        reveal_strlit("  ");
    }
    assert(r@ =~= listing_line_spec(is_directory, name@));
    r
}

} // verus!
