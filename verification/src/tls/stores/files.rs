//! Keeping certificates as files in a folder: the names of those files.
use vstd::prelude::*;
use vstd::string::StringExecFns;

use crate::text::chars_of;

verus! {

/// The ending of the names of certificate files.
pub open spec fn cert_suffix() -> Seq<char> {
    ".tunneload.cert"@
}

/// `s` without the ending `suffix`, when it ends with it.
pub open spec fn suffix_stripped(s: Seq<char>, suffix: Seq<char>) -> Option<Seq<char>> {
    if s.len() >= suffix.len() && s.skip(s.len() - suffix.len()) == suffix {
        Some(s.take(s.len() - suffix.len()))
    } else {
        None
    }
}

/// The path of the file `name` in `folder`, as `Path::join` forms it on
/// Unix: an absolute `name` stands alone; otherwise it is appended, with a
/// `/` between when `folder` is not empty and does not end in one.
pub open spec fn joined_path(folder: Seq<char>, name: Seq<char>) -> Seq<char> {
    if name.len() > 0 && name[0] == '/' {
        name
    } else if folder.len() == 0 || folder.last() == '/' {
        folder + name
    } else {
        folder + seq!['/'] + name
    }
}

/// The last component of a path, as `Path::file_name` gives it (`None`
/// for a path that ends in `..` or has no components).
pub uninterp spec fn path_file_name(path: Seq<char>) -> Option<Seq<char>>;

/// Whether `name` is an ordinary last component of a path: not empty, no
/// `/` in it, and neither `.` nor `..`.
pub open spec fn plain_name(name: Seq<char>) -> bool {
    &&& name.len() > 0
    &&& !name.contains('/')
    &&& name != seq!['.']
    &&& name != seq!['.', '.']
}

/// Whether `path` ends in the ordinary component `name`: `name` follows the
/// start of the path or a `/`.
pub open spec fn ends_in_name(path: Seq<char>, name: Seq<char>) -> bool {
    &&& plain_name(name)
    &&& exists|i: int|
        0 <= i <= path.len() && (i == 0 || path[i - 1] == '/') && #[trigger] path.skip(i) == name
}

/// The last component of a path.
///
/// Trusted: calls `std::path::Path::file_name`, whose result depends on the
/// path alone and is named by `path_file_name`; it is the last component of
/// the path, so a path that ends in an ordinary component after a `/` (or
/// that is one) gives that component. A component of a path made from
/// UTF-8 text is UTF-8 text, so `to_string_lossy` changes nothing.
#[verifier::external_body]
fn file_name_of(path: &str) -> (res: Option<String>)
    ensures
        match res {
            Some(f) => path_file_name(path@) == Some(f@),
            None => path_file_name(path@) is None,
        },
        match res {
            Some(f) => forall|name: Seq<char>| #[trigger] ends_in_name(path@, name) ==> f@ == name,
            None => forall|name: Seq<char>| !#[trigger] ends_in_name(path@, name),
        },
{
    std::path::Path::new(path).file_name().map(|f| f.to_string_lossy().into_owned())
}

/// Removes `suffix` from the end of `s`.
fn strip_suffix(s: &str, suffix: &str) -> (res: Option<String>)
    ensures
        match res {
            Some(r) => suffix_stripped(s@, suffix@) == Some(r@),
            None => suffix_stripped(s@, suffix@) is None,
        },
{
    let c = chars_of(s);
    let e = chars_of(suffix);
    if c.len() < e.len() {
        return None;
    }
    let start = c.len() - e.len();
    let mut i: usize = 0;
    while i < e.len()
        invariant
            c@ == s@,
            e@ == suffix@,
            start == c@.len() - e@.len(),
            c@.len() <= usize::MAX,
            0 <= i <= e@.len(),
            forall|j: int| 0 <= j < i ==> c@[start + j] == e@[j],
        decreases e@.len() - i,
    {
        if c[start + i] != e[i] {
            assert(s@.skip(start as int)[i as int] != suffix@[i as int]);
            return None;
        }
        i = i + 1;
    }
    assert(s@.skip(start as int) =~= suffix@);
    Some(s.substring_char(0, start).to_owned())
}

/// The domain of a certificate file's name is the domain it was named for,
/// and that name is one of a certificate file.
pub proof fn lemma_cert_name_round_trip(domain: Seq<char>)
    ensures
        suffix_stripped(domain + cert_suffix(), cert_suffix()) == Some(domain),
{
    let s = domain + cert_suffix();
    assert(s.skip(s.len() - cert_suffix().len()) =~= cert_suffix());
    assert(s.take(s.len() - cert_suffix().len()) =~= domain);
}

/// The path of a domain's certificate file ends in the file's name, from
/// which the domain comes back: for a domain without `/`, the path that
/// `cert_path` forms ends in the component `domain` + `.tunneload.cert`,
/// and `get_domain` of that path gives the domain again.
pub proof fn lemma_cert_path_domain(folder: Seq<char>, domain: Seq<char>)
    requires
        !domain.contains('/'),
    ensures
        ends_in_name(joined_path(folder, domain + cert_suffix()), domain + cert_suffix()),
        suffix_stripped(domain + cert_suffix(), cert_suffix()) == Some(domain),
{
    reveal_strlit(".tunneload.cert");
    let name = domain + cert_suffix();
    assert(name.len() >= 15);
    assert forall|k: int| 0 <= k < name.len() implies name[k] != '/' by {
        if k < domain.len() {
            assert(name[k] == domain[k]);
        } else {
            assert(name[k] == cert_suffix()[k - domain.len()]);
        }
    }
    assert(!name.contains('/'));
    assert(name != seq!['.']);
    assert(name != seq!['.', '.']);
    assert(name[0] != '/');
    let path = joined_path(folder, name);
    if folder.len() == 0 || folder.last() == '/' {
        let i = folder.len() as int;
        assert(path.skip(i) =~= name);
    } else {
        let i = folder.len() + 1int;
        assert(path[i - 1] == '/');
        assert(path.skip(i) =~= name);
    }
    lemma_cert_name_round_trip(domain);
}

/// Certificates kept as files in a folder.
#[derive(Debug)]
pub struct FileStore {
    folder: String,
}

impl FileStore {
    /// The folder of the store.
    pub closed spec fn spec_folder(&self) -> Seq<char> {
        self.folder@
    }

    /// Creates a store over the given folder.
    pub fn new(folder: String) -> (res: Self)
        ensures
            res.spec_folder() == folder@,
    {
        Self { folder }
    }

    /// The path of the file `file_name` in the store's folder.
    pub fn get_path(&self, file_name: &str) -> (res: String)
        ensures
            res@ == joined_path(self.spec_folder(), file_name@),
    {
        let name = chars_of(file_name);
        if name.len() > 0 && name[0] == '/' {
            return file_name.to_owned();
        }
        let folder = chars_of(self.folder.as_str());
        let mut path = self.folder.clone();
        if folder.len() > 0 && folder[folder.len() - 1] != '/' {
            path.append("/");
            proof {
                reveal_strlit("/");
                assert("/"@ =~= seq!['/']);
            }
        }
        path.append(file_name);
        path
    }

    /// The name of the certificate file of `domain`.
    pub fn cert_filename(domain: &str) -> (res: String)
        ensures
            res@ == domain@ + cert_suffix(),
    {
        let mut name = domain.to_owned();
        name.append(".tunneload.cert");
        name
    }

    /// The path of the certificate file of `domain`.
    pub fn cert_path(&self, domain: &str) -> (res: String)
        ensures
            res@ == joined_path(self.spec_folder(), domain@ + cert_suffix()),
    {
        let name = Self::cert_filename(domain);
        self.get_path(name.as_str())
    }

    /// Whether the path names a certificate file: its last component ends
    /// in `.tunneload.cert`.
    pub fn is_cert_file(path: &str) -> (res: bool)
        ensures
            res == match path_file_name(path@) {
                Some(f) => suffix_stripped(f, cert_suffix()) is Some,
                None => false,
            },
    {
        match file_name_of(path) {
            Some(f) => strip_suffix(f.as_str(), ".tunneload.cert").is_some(),
            None => false,
        }
    }

    /// The domain of a certificate file: its last component without the
    /// ending `.tunneload.cert`.
    pub fn get_domain(path: &str) -> (res: Option<String>)
        ensures
            match res {
                Some(d) => path_file_name(path@) matches Some(f) && suffix_stripped(f, cert_suffix())
                    == Some(d@),
                None => match path_file_name(path@) {
                    Some(f) => suffix_stripped(f, cert_suffix()) is None,
                    None => true,
                },
            },
            forall|name: Seq<char>| #[trigger] ends_in_name(path@, name) ==> match suffix_stripped(
                name,
                cert_suffix(),
            ) {
                Some(d) => res matches Some(r) && r@ == d,
                None => res is None,
            },
    {
        match file_name_of(path) {
            Some(f) => strip_suffix(f.as_str(), ".tunneload.cert"),
            None => None,
        }
    }
}

} // verus!
