//! A directory for the files of one run.

use std::path::PathBuf;
use vstd::prelude::*;

use crate::random::{random_number, RandomError};
use crate::text::{decimal, decimal_reads_back, push_digits, signed_number};

verus! {

/// The name of the directory with the given number.
pub open spec fn numbered_name(number: u64) -> Seq<char> {
    "carcetti-"@ + decimal(number as int)
}

/// The name of the directory with the given number.
pub fn directory_name(number: u64) -> (r: String)
    ensures
        r@ == numbered_name(number),
{
    let mut out = "carcetti-".to_owned();
    push_digits(&mut out, number);
    out
}

/// The name of the directory with the number that was drawn. Fails exactly if the draw has failed,
/// and with the same error.
pub fn drawn_directory_name(drawn: Result<u64, RandomError>) -> (r: Result<String, RandomError>)
    ensures
        match drawn {
            Ok(number) => r is Ok && r->Ok_0@ == numbered_name(number),
            Err(e) => r == Err::<String, RandomError>(e),
        },
{
    match drawn {
        Ok(number) => Ok(directory_name(number)),
        Err(e) => Err(e),
    }
}

/// A name for a new directory, with a random number: what [`drawn_directory_name`] makes of a
/// draw. Any number may be in it; only the random source can fail.
pub fn random_directory_name() -> (r: Result<String, RandomError>)
    ensures
        r matches Ok(name) ==> exists|number: u64| name@ == #[trigger] numbered_name(number),
{
    drawn_directory_name(random_number())
}

/// A temporary directory.
#[derive(Debug)]
pub struct TempDir {
    /// Where it is.
    pub path: PathBuf,
    /// Whether it was given up on purpose.
    pub deleted: bool,
}

impl TempDir {
    /// The directory at `path`, which has just been created.
    pub fn at(path: PathBuf) -> (r: TempDir)
        ensures
            r.path == path,
            !r.deleted,
    {
        TempDir { path, deleted: false }
    }

    /// Where the directory is.
    pub fn path(&self) -> (r: &PathBuf)
        ensures
            *r == self.path,
    {
        &self.path
    }

    /// Notes that the directory is about to be removed. Returns what to remove.
    pub fn delete(&mut self) -> (r: &PathBuf)
        ensures
            *r == old(self).path,
            final(self).path == old(self).path,
            final(self).deleted,
    {
        self.deleted = true;
        &self.path
    }

    /// Whether the directory still has to be removed when the value is dropped.
    pub fn needs_removal(&self) -> (r: bool)
        ensures
            r == !self.deleted,
    {
        !self.deleted
    }
}

/// The name of a directory ends in its number, so that different numbers give different names.
pub proof fn names_tell_their_number(number: u64)
    ensures
        numbered_name(number).take(9) == "carcetti-"@,
        signed_number(numbered_name(number).skip(9)) == number,
{
    reveal_strlit("carcetti-");
    decimal_reads_back(number as int);
    assert(numbered_name(number).take(9) =~= "carcetti-"@);
    assert(numbered_name(number).skip(9) =~= decimal(number as int));
}

/// What [`directory_name`] returns for different numbers differs.
pub proof fn different_numbers_have_different_names(a: u64, b: u64, r: String, s: String)
    requires
        a != b,
        call_ensures(directory_name, (a,), r),
        call_ensures(directory_name, (b,), s),
    ensures
        r@ != s@,
{
    names_tell_their_number(a);
    names_tell_their_number(b);
}

/// What becomes of a number that was drawn, or of the error: the directory has the name of the number,
/// and stands for removal until it is deleted.
pub proof fn a_directory_is_removed_once(
    number: u64,
    r: Result<String, RandomError>,
    path: PathBuf,
    made: TempDir,
    due: bool,
    dir: &mut TempDir,
    gone: &PathBuf,
)
    requires
        call_ensures(drawn_directory_name, (Ok(number),), r),
        call_ensures(TempDir::at, (path,), made),
        call_ensures(TempDir::needs_removal, (&made,), due),
        *old(dir) == made,
        call_ensures(TempDir::delete, (dir,), gone),
    ensures
        r is Ok && r->Ok_0@ == numbered_name(number),
        due,
        *gone == path,
        final(dir).path == path,
        final(dir).deleted,
{
}

} // verus!
