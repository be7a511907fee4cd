//! The request that hands a workspace file to the MCP file reader: the file's
//! type, from its extension, and its bytes in standard base64.

use vstd::prelude::*;

use base64::Engine;

use crate::text::{chars_of, lower_seq, owned, string_from_range, to_ascii_lowercase};

verus! {

/// The character of a six-bit value in the standard base64 alphabet.
pub open spec fn b64_digit(n: int) -> char {
    if n < 26 {
        (('A' as int) + n) as char
    } else if n < 52 {
        (('a' as int) + n - 26) as char
    } else if n < 62 {
        (('0' as int) + n - 52) as char
    } else if n == 62 {
        '+'
    } else {
        '/'
    }
}

/// Standard base64 with padding: each group of three bytes gives four
/// characters; a last group of one or two bytes is padded with `=`.
pub open spec fn base64_text(bs: Seq<u8>) -> Seq<char>
    decreases bs.len(),
{
    if bs.len() == 0 {
        Seq::empty()
    } else if bs.len() == 1 {
        let a = bs[0] as int;
        seq![b64_digit(a / 4), b64_digit((a % 4) * 16), '=', '=']
    } else if bs.len() == 2 {
        let a = bs[0] as int;
        let b = bs[1] as int;
        seq![b64_digit(a / 4), b64_digit((a % 4) * 16 + b / 16), b64_digit((b % 16) * 4), '=']
    } else {
        let a = bs[0] as int;
        let b = bs[1] as int;
        let c = bs[2] as int;
        seq![
            b64_digit(a / 4),
            b64_digit((a % 4) * 16 + b / 16),
            b64_digit((b % 16) * 4 + c / 64),
            b64_digit(c % 64),
        ] + base64_text(bs.subrange(3, bs.len() as int))
    }
}

/// `STANDARD.encode` of the base64 crate (`engine::general_purpose`): the
/// bytes in the standard alphabet, padded. It panics only when the length of
/// the text would not fit in a `usize`, which the bound on the input excludes.
#[verifier::external_body]
fn base64_standard(bytes: &Vec<u8>) -> (r: String)
    requires
        (bytes@.len() / 3 + 1) * 4 <= usize::MAX,
    ensures
        r@ == base64_text(bytes@),
{
    base64::engine::general_purpose::STANDARD.encode(bytes)
}

/// Where the last `.` of a text stands, if it has one.
pub open spec fn last_dot(s: Seq<char>) -> Option<int>
    decreases s.len(),
{
    if s.len() == 0 {
        None
    } else if s.last() == '.' {
        Some(s.len() - 1)
    } else {
        last_dot(s.drop_last())
    }
}

/// The extension of a file name as `Path::extension` gives it: what follows
/// the last `.`, unless there is none, or the only one opens the name, or
/// the name is `..`.
pub open spec fn file_extension(name: Seq<char>) -> Option<Seq<char>> {
    if name == ".."@ {
        None
    } else {
        match last_dot(name) {
            Some(i) => if i > 0 {
                Some(name.subrange(i + 1, name.len() as int))
            } else {
                None
            },
            None => None,
        }
    }
}

/// The error the MCP file reader answers for a file without an extension.
pub const UNSUPPORTED_MCP_FILE_TYPE: &'static str = "Error: Unsupported file type for MCP read";

/// The file type the MCP reader is told: the extension of the file's name
/// (as `Path::file_name` gives it) in lower case; without one, the error.
pub fn mcp_read_file_type(file_name: Option<&str>) -> (r: Result<String, String>)
    ensures
        match file_name {
            Some(n) => match file_extension(n@) {
                Some(e) => r matches Ok(t) && t@ == lower_seq(e),
                None => r matches Err(m) && m@ == UNSUPPORTED_MCP_FILE_TYPE@,
            },
            None => r matches Err(m) && m@ == UNSUPPORTED_MCP_FILE_TYPE@,
        },
{
    let name = match file_name {
        Some(n) => n,
        None => {
            return Err(owned(UNSUPPORTED_MCP_FILE_TYPE));
        },
    };
    proof {
        reveal_strlit("..");
    }
    let v = chars_of(name);
    if v.len() == 2 && v[0] == '.' && v[1] == '.' {
        assert(v@ =~= ".."@);
        return Err(owned(UNSUPPORTED_MCP_FILE_TYPE));
    }
    assert(v@ != ".."@ ==> name@ != ".."@);
    let mut last: Option<usize> = None;
    let mut i: usize = 0;
    assert(v@.take(0) =~= Seq::<char>::empty());
    while i < v.len()
        invariant
            0 <= i <= v.len(),
            v@ == name@,
            match last {
                Some(k) => last_dot(v@.take(i as int)) == Some(k as int) && k < i,
                None => last_dot(v@.take(i as int)) is None,
            },
        decreases v.len() - i,
    {
        assert(v@.take(i + 1).drop_last() =~= v@.take(i as int));
        assert(v@.take(i + 1).last() == v@[i as int]);
        if v[i] == '.' {
            last = Some(i);
        }
        i += 1;
    }
    assert(v@.take(v.len() as int) =~= v@);
    match last {
        Some(k) => {
            if k == 0 {
                Err(owned(UNSUPPORTED_MCP_FILE_TYPE))
            } else {
                let ext = string_from_range(&v, k + 1, v.len());
                Ok(to_ascii_lowercase(ext.as_str()))
            }
        },
        None => Err(owned(UNSUPPORTED_MCP_FILE_TYPE)),
    }
}

/// The arguments of the MCP `read_file` call: the file's bytes in base64 and
/// its type.
pub struct McpReadFile {
    pub file_content: String,
    pub file_type: String,
}

/// The `read_file` arguments for a file of the given type and bytes.
pub fn mcp_read_file_arguments(file_type: &str, bytes: &Vec<u8>) -> (r: McpReadFile)
    requires
        (bytes@.len() / 3 + 1) * 4 <= usize::MAX,
    ensures
        r.file_content@ == base64_text(bytes@),
        r.file_type@ == file_type@,
{
    McpReadFile { file_content: base64_standard(bytes), file_type: owned(file_type) }
}

} // verus!
