//! Install-level layout: the data directory and the paths under it.
use vstd::prelude::*;
use vstd::string::StringExecFns;
use crate::setup::SetupMode;
use crate::text::chars_of;

verus! {

/// The data directory of an install.
pub struct Tenancy {
    data_dir: String,
}

impl View for Tenancy {
    type V = Seq<char>;

    closed spec fn view(&self) -> Seq<char> {
        self.data_dir@
    }
}

impl Tenancy {
    pub fn new(data_dir: String) -> (r: Self)
        ensures
            r@ == data_dir@,
    {
        Self { data_dir }
    }

    pub fn data_dir(&self) -> (r: &str)
        ensures
            r@ == self@,
    {
        self.data_dir.as_str()
    }
}

/// `base` with the relative path `rel` adjoined, as `Path::join` does on
/// Unix: a `/` goes between them unless `base` is empty or already ends in
/// one.
pub open spec fn join_relative(base: Seq<char>, rel: Seq<char>) -> Seq<char> {
    if base.len() == 0 || base.last() == '/' {
        base + rel
    } else {
        base + seq!['/'] + rel
    }
}

fn join(base: &str, rel: &str) -> (r: String)
    ensures
        r@ == join_relative(base@, rel@),
{
    let b = chars_of(base);
    let mut s = String::from_str(base);
    if b.len() > 0 && b[b.len() - 1] != '/' {
        s.push('/');
    }
    s.append(rel);
    s
}

/// Canonical path of the admin socket within a data directory.
pub fn admin_socket_path(data_dir: &str) -> (r: String)
    ensures
        r@ == join_relative(data_dir@, "admin.sock"@),
{
    join(data_dir, "admin.sock")
}

/// Path of a profile's database file: `<data_dir>/<profile dir>/<db file>`.
pub fn profile_db_path(data_dir: &str, profile: SetupMode, db_filename: &str) -> (r: String)
    ensures
        r@ == join_relative(
            join_relative(data_dir@, crate::setup::mode_text(profile)),
            db_filename@,
        ),
{
    let dir = join(data_dir, profile.as_dir_name());
    join(dir.as_str(), db_filename)
}

} // verus!
