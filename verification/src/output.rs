//! The name of the executable that the compiler writes.
use vstd::prelude::*;
use vstd::string::StrSliceExecFns;
use vstd::string::StringExecFns;

verus! {

pub open spec fn exe_suffix() -> Seq<char> {
    seq!['.', 'e', 'x', 'e']
}

pub open spec fn default_stem() -> Seq<char> {
    seq!['o', 'u', 't']
}

pub open spec fn ends_with_exe(s: Seq<char>) -> bool {
    s.len() >= 4 && s.subrange(s.len() - 4, s.len() as int) == exe_suffix()
}

/// The executable's name for the requested name `requested` (empty when
/// none was given): `out` by default; on Windows with `.exe` appended
/// unless the name ends with it.
pub open spec fn output_name(requested: Seq<char>, windows: bool) -> Seq<char> {
    if requested.len() == 0 {
        if windows {
            default_stem() + exe_suffix()
        } else {
            default_stem()
        }
    } else if windows && !ends_with_exe(requested) {
        requested + exe_suffix()
    } else {
        requested
    }
}

/// On Windows the executable's name always ends with `.exe`; elsewhere a
/// requested name is kept; and naming is idempotent: naming a name that
/// was already chosen keeps it.
pub proof fn law_output_name(requested: Seq<char>, windows: bool)
    ensures
        windows ==> ends_with_exe(output_name(requested, windows)),
        !windows && requested.len() > 0 ==> output_name(requested, windows) == requested,
        output_name(output_name(requested, windows), windows) == output_name(requested, windows),
{
    let r = output_name(requested, windows);
    if windows {
        if requested.len() == 0 {
            assert(r.subrange(r.len() - 4, r.len() as int) =~= exe_suffix());
        } else if !ends_with_exe(requested) {
            assert(r.subrange(r.len() - 4, r.len() as int) =~= exe_suffix());
        }
    }
    if !windows && requested.len() == 0 {
        assert(r.len() > 0);
    }
}

/// The executable's name, as `output_name` says.
pub fn output_file_name(requested: &String, windows: bool) -> (name: String)
    ensures
        name@ == output_name(requested@, windows),
{
    let text = requested.as_str();
    let len = text.unicode_len();
    if len == 0 {
        let stem = "out".to_owned();
        proof {
            reveal_strlit("out");
            reveal_strlit(".exe");
            assert(stem@ =~= default_stem());
        }
        if windows {
            let name = stem.concat(".exe");
            assert(name@ =~= default_stem() + exe_suffix());
            return name;
        }
        return stem;
    }
    let ends = len >= 4 && text.get_char(len - 4) == '.' && text.get_char(len - 3) == 'e'
        && text.get_char(len - 2) == 'x' && text.get_char(len - 1) == 'e';
    proof {
        let s = requested@;
        if len >= 4 {
            let tail = s.subrange(s.len() - 4, s.len() as int);
            if ends {
                assert(tail =~= exe_suffix());
            }
            if tail == exe_suffix() {
                assert(tail[0] == '.' && tail[1] == 'e' && tail[2] == 'x' && tail[3] == 'e');
            }
        }
    }
    if windows && !ends {
        let name = requested.clone().concat(".exe");
        proof {
            reveal_strlit(".exe");
            assert(".exe"@ =~= exe_suffix());
        }
        name
    } else {
        requested.clone()
    }
}

} // verus!
