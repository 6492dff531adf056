use vstd::prelude::*;

verus! {

/// `name` resolved against the directory `base`, on `/`-separated paths: an
/// absolute `name` stands alone, otherwise one separator joins the two.
pub open spec fn joined(base: Seq<char>, name: Seq<char>) -> Seq<char> {
    if name.len() > 0 && name[0] == '/' {
        name
    } else if base.len() == 0 || base.last() == '/' {
        base + name
    } else {
        base + seq!['/'] + name
    }
}

/// Relies on `std::path::Path::exists`: whether the file system holds an
/// entry at `path`. That depends on the disk, so nothing is stated of it.
#[verifier::external_body]
fn path_exists(path: &str) -> bool {
    std::path::Path::new(path).exists()
}

/// Whether the file system holds an entry at `path`.
pub fn file_exists(path: &str) -> bool {
    path_exists(path)
}

/// Addresses files by names relative to a base directory.
pub struct FileManager {
    pub base_path: String,
}

impl FileManager {
    pub fn new(base_path: &str) -> (r: Self)
        ensures
            r.base_path@ == base_path@,
    {
        FileManager { base_path: String::from_str(base_path) }
    }

    /// The path of `file_name` under the base directory.
    pub fn full_path(&self, file_name: &str) -> (r: String)
        ensures
            r@ == joined(self.base_path@, file_name@),
    {
        let base = self.base_path.as_str();
        let n = base.unicode_len();
        let absolute = file_name.unicode_len() > 0 && file_name.get_char(0) == '/';
        if absolute {
            return String::from_str(file_name);
        }
        let mut r = String::from_str(base);
        if n > 0 && base.get_char(n - 1) != '/' {
            proof {
                reveal_strlit("/");
                assert("/"@ =~= seq!['/']);
            }
            r.append("/");
        }
        r.append(file_name);
        r
    }

    /// Whether `file_name` exists under the base directory.
    pub fn entry_exists(&self, file_name: &str) -> bool {
        let p = self.full_path(file_name);
        path_exists(p.as_str())
    }
}

} // verus!
