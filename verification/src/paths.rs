//! Where the history is stored.
//!
//! Paths and environment variables are byte strings, as the operating system
//! gives them.

use vstd::prelude::*;

use crate::model::{text_in, to_text};

verus! {

/// `base` with the relative path `name` after it, and a slash between the two
/// unless `base` is empty or ends with one.
pub open spec fn below(base: Seq<u8>, name: Seq<u8>) -> Seq<u8> {
    if base.len() == 0 || base.last() == 47 {
        base + name
    } else {
        base.push(47) + name
    }
}

/// `.local`, in ASCII.
pub open spec fn local_name() -> Seq<u8> {
    seq![46u8, 108, 111, 99, 97, 108]
}

/// `share`.
pub open spec fn share_name() -> Seq<u8> {
    seq![115u8, 104, 97, 114, 101]
}

/// `clipway`.
pub open spec fn clipway_name() -> Seq<u8> {
    seq![99u8, 108, 105, 112, 119, 97, 121]
}

/// `history.db`.
pub open spec fn history_name() -> Seq<u8> {
    seq![104u8, 105, 115, 116, 111, 114, 121, 46, 100, 98]
}

/// The path of the database: the one that is set for it, or a file below the user's
/// data directory, if that is known.
pub open spec fn database_path(
    set: Option<Seq<u8>>,
    data_home: Option<Seq<u8>>,
    home: Option<Seq<u8>>,
) -> Option<Seq<u8>> {
    match (set, data_home, home) {
        (Some(path), _, _) => Some(path),
        (None, Some(base), _) => Some(below(below(base, clipway_name()), history_name())),
        (None, None, Some(dir)) => Some(
            below(
                below(below(below(dir, local_name()), share_name()), clipway_name()),
                history_name(),
            ),
        ),
        (None, None, None) => None,
    }
}

/// The view of an optional byte string.
pub open spec fn optional_bytes(bytes: Option<Vec<u8>>) -> Option<Seq<u8>> {
    match bytes {
        Some(v) => Some(v@),
        None => None,
    }
}

/// Neither the data directory nor the home directory is known.
#[derive(Clone, Copy, Debug, PartialEq, Eq, Structural)]
pub struct NoDataDirectory;

impl NoDataDirectory {
    /// The message for this error.
    pub fn message(self) -> (res: &'static str)
        ensures
            res@ == "cannot determine the data directory; set XDG_DATA_HOME or HOME"@,
    {
        "cannot determine the data directory; set XDG_DATA_HOME or HOME"
    }
}

fn join(base: Vec<u8>, name: &[u8]) -> (res: Vec<u8>)
    ensures
        res@ == below(base@, name@),
{
    let mut out = base;
    if out.len() > 0 && out[out.len() - 1] != 47 {
        out.push(47);
    }
    let ghost lead = out@;
    let mut i: usize = 0;
    while i < name.len()
        invariant
            i <= name@.len(),
            out@ == lead + name@.take(i as int),
        decreases name@.len() - i,
    {
        out.push(name[i]);
        i += 1;
        proof {
            assert(out@ =~= lead + name@.take(i as int));
        }
    }
    proof {
        assert(name@.take(i as int) =~= name@);
    }
    out
}

/// The path of the database, from the values of `CLIPWAY_DB_PATH`, `XDG_DATA_HOME`
/// and `HOME`.
pub fn db_path(
    set: Option<Vec<u8>>,
    data_home: Option<Vec<u8>>,
    home: Option<Vec<u8>>,
) -> (res: Result<Vec<u8>, NoDataDirectory>)
    ensures
        match database_path(optional_bytes(set), optional_bytes(data_home), optional_bytes(home)) {
            Some(path) => res matches Ok(found) && found@ == path,
            None => res is Err,
        },
{
    if let Some(path) = set {
        return Ok(path);
    }
    let base = match data_home {
        Some(base) => base,
        None => match home {
            Some(dir) => {
                let local = join(dir, &[46u8, 108, 111, 99, 97, 108]);
                join(local, &[115u8, 104, 97, 114, 101])
            },
            None => return Err(NoDataDirectory),
        },
    };
    let directory = join(base, &[99u8, 108, 105, 112, 119, 97, 121]);
    Ok(join(directory, &[104u8, 105, 115, 116, 111, 114, 121, 46, 100, 98]))
}

/// The path of the database as text, from the values of `CLIPWAY_DB_PATH`,
/// `XDG_DATA_HOME` and `HOME`.
pub fn database_path_display(
    set: Option<Vec<u8>>,
    data_home: Option<Vec<u8>>,
    home: Option<Vec<u8>>,
) -> (res: String)
    ensures
        res@ == match database_path(
            optional_bytes(set),
            optional_bytes(data_home),
            optional_bytes(home),
        ) {
            Some(path) => text_in(path),
            None => "(unknown)"@,
        },
{
    match db_path(set, data_home, home) {
        Ok(path) => to_text(path.as_slice()),
        Err(_) => "(unknown)".to_owned(),
    }
}

} // verus!
