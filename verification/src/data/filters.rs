//! Filters that decide which modules are ripped.
use crate::common::{file_extension, filename, path_extension, path_file_name};
use crate::text::{has_infix, has_prefix, has_suffix};
use vstd::prelude::*;
use vstd::string::StringExecFns;

verus! {

/// A filter on module paths.
pub trait Filter {
    /// Whether the filter's settings can be applied.
    spec fn applicable(&self) -> bool;

    /// Whether the module at `path` passes the filter.
    fn matches(&self, path: &str) -> (r: bool)
        requires
            self.applicable(),
    ;
}

/// How a name filter entry is compared with a file name.
#[derive(PartialEq, Eq, Structural, Clone, Copy, Debug)]
pub enum Comparison {
    /// The entry contains the text.
    Contains,
    /// The entry starts with the text.
    StartsWith,
    /// The entry ends with the text.
    EndsWith,
    /// The entry is the text.
    Equals,
}

/// Whether entry `e` compares with `s` as `k` says.
pub open spec fn compares(k: Comparison, e: Seq<char>, s: Seq<char>) -> bool {
    match k {
        Comparison::Contains => has_infix(e, s),
        Comparison::StartsWith => has_prefix(e, s),
        Comparison::EndsWith => has_suffix(e, s),
        Comparison::Equals => e == s,
    }
}

/// Whether a list of entries lets `s` pass: it is empty, or one of its
/// entries compares with `s`.
pub open spec fn any_or_empty(items: Seq<Seq<char>>, k: Comparison, s: Seq<char>) -> bool {
    items.len() == 0 || exists|i: int| 0 <= i < items.len() && #[trigger] compares(k, items[i], s)
}

/// The texts of a list of strings.
pub open spec fn texts(v: Seq<String>) -> Seq<Seq<char>> {
    v.map_values(|s: String| s@)
}

/// Whether one of `items` compares with `s` (or there are none).
fn any_item(items: &Vec<String>, k: Comparison, s: &str) -> (r: bool)
    ensures
        r == any_or_empty(texts(items@), k, s@),
{
    if items.len() == 0 {
        return true;
    }
    let ghost t = texts(items@);
    let mut i: usize = 0;
    while i < items.len()
        invariant
            t == texts(items@),
            i <= items@.len(),
            forall|j: int| 0 <= j < i ==> !compares(k, #[trigger] t[j], s@),
        decreases items@.len() - i,
    {
        let e = items[i].as_str();
        let hit = match k {
            Comparison::Contains => crate::text::contains(e, s),
            Comparison::StartsWith => crate::text::starts_with(e, s),
            Comparison::EndsWith => crate::text::ends_with(e, s),
            Comparison::Equals => crate::text::str_eq(e, s),
        };
        if hit {
            assert(compares(k, t[i as int], s@));
            return true;
        }
        i += 1;
    }
    false
}

/// A filter on file names and extensions. Each list that is not empty must
/// have an entry that contains, starts with, ends with or (for
/// extensions) is the module's file name or extension.
#[derive(Debug, Clone)]
pub struct Name {
    pub contains: Vec<String>,
    pub starts_with: Vec<String>,
    pub ends_with: Vec<String>,
    pub extensions: Vec<String>,
}

/// A path's file name, or the empty text when it has none.
pub open spec fn file_name_or_empty(p: Seq<char>) -> Seq<char> {
    match path_file_name(p) {
        Some(n) => n,
        None => Seq::empty(),
    }
}

/// A path's extension, or the empty text when it has none.
pub open spec fn extension_or_empty(p: Seq<char>) -> Seq<char> {
    match path_extension(p) {
        Some(e) => e,
        None => Seq::empty(),
    }
}

impl Name {
    /// Whether the module at `path` passes the filter.
    pub open spec fn accepts(&self, path: Seq<char>) -> bool {
        &&& any_or_empty(texts(self.contains@), Comparison::Contains, file_name_or_empty(path))
        &&& any_or_empty(texts(self.starts_with@), Comparison::StartsWith, file_name_or_empty(path))
        &&& any_or_empty(texts(self.ends_with@), Comparison::EndsWith, file_name_or_empty(path))
        &&& any_or_empty(texts(self.extensions@), Comparison::Equals, extension_or_empty(path))
    }
}

impl Filter for Name {
    open spec fn applicable(&self) -> bool {
        true
    }

    fn matches(&self, path: &str) -> (r: bool)
        ensures
            r == self.accepts(path@),
    {
        let name = filename(path);
        let extension = file_extension(path);
        any_item(&self.contains, Comparison::Contains, name.as_str())
            && any_item(&self.starts_with, Comparison::StartsWith, name.as_str())
            && any_item(&self.ends_with, Comparison::EndsWith, name.as_str())
            && any_item(&self.extensions, Comparison::Equals, extension.as_str())
    }
}

/// The numbers from 0 below `n`, in decimal, each after `prefix`.
fn numbered(prefix: &str, n: u64) -> (r: Vec<String>)
    ensures
        texts(r@) == Seq::new(n as nat, |i: int| prefix@ + crate::compression::decimal(i as nat)),
{
    let mut out: Vec<String> = Vec::new();
    let mut i: u64 = 0;
    while i < n
        invariant
            i <= n,
            texts(out@) == Seq::new(i as nat, |j: int| prefix@ + crate::compression::decimal(j as nat)),
        decreases n - i,
    {
        let mut s = String::from_str(prefix);
        let d = crate::text::decimal_text(i);
        s.append(d.as_str());
        let ghost before = out@;
        let ghost sv = s@;
        out.push(s);
        assert(texts(out@) =~= texts(before).push(sv));
        assert(texts(out@) =~= Seq::new((i + 1) as nat, |j: int| prefix@ + crate::compression::decimal(j as nat)));
        i += 1;
    }
    out
}

impl Default for Name {
    fn default() -> (r: Self)
        ensures
            texts(r.contains@) == Seq::new(30, |i: int| "test"@ + crate::compression::decimal(i as nat)),
            texts(r.starts_with@) == seq!["test"@, "test2"@, "test3"@],
            texts(r.ends_with@) == Seq::new(50, |i: int| crate::compression::decimal(i as nat)),
            texts(r.extensions@) == Seq::new(10, |i: int| crate::compression::decimal(i as nat)),
    {
        let mut starts_with: Vec<String> = Vec::new();
        starts_with.push(String::from_str("test"));
        starts_with.push(String::from_str("test2"));
        starts_with.push(String::from_str("test3"));
        assert(texts(starts_with@) =~= seq!["test"@, "test2"@, "test3"@]);
        let ends_with = numbered("", 50);
        let extensions = numbered("", 10);
        proof {
            assert(""@ =~= Seq::<char>::empty()) by {
                reveal_strlit("");
            }
            assert(Seq::new(50, |i: int| ""@ + crate::compression::decimal(i as nat)) =~= Seq::new(
                50,
                |i: int| crate::compression::decimal(i as nat),
            ));
            assert(Seq::new(10, |i: int| ""@ + crate::compression::decimal(i as nat)) =~= Seq::new(
                10,
                |i: int| crate::compression::decimal(i as nat),
            ));
        }
        Name { contains: numbered("test", 30), starts_with, ends_with, extensions }
    }
}

/// The unit a size limit is given in.
#[derive(Debug, Clone, Copy, PartialEq, Eq, Structural)]
pub enum Modifier {
    B,
    KB,
    MB,
}

impl Default for Modifier {
    fn default() -> (r: Self)
        ensures
            r == Modifier::KB,
    {
        Modifier::KB
    }
}

/// The number of bytes in a unit.
pub open spec fn unit_bytes(m: Modifier) -> u64 {
    match m {
        Modifier::B => 1,
        Modifier::KB => 1_000,
        Modifier::MB => 1_000_000,
    }
}

impl Modifier {
    /// Every unit, smallest first.
    pub fn all() -> (r: [Modifier; 3])
        ensures
            r@ == seq![Modifier::B, Modifier::KB, Modifier::MB],
    {
        let r = [Modifier::B, Modifier::KB, Modifier::MB];
        assert(r@ =~= seq![Modifier::B, Modifier::KB, Modifier::MB]);
        r
    }

    /// The number of bytes in the unit.
    pub fn bytes(&self) -> (r: u64)
        ensures
            r == unit_bytes(*self),
    {
        match self {
            Modifier::B => 1,
            Modifier::KB => 1_000,
            Modifier::MB => 1_000_000,
        }
    }

    /// The name the unit is shown by.
    pub fn name(&self) -> (r: &'static str)
        ensures
            r@ == match *self {
                Modifier::B => "bytes"@,
                Modifier::KB => "KB"@,
                Modifier::MB => "MB"@,
            },
    {
        match self {
            Modifier::B => "bytes",
            Modifier::KB => "KB",
            Modifier::MB => "MB",
        }
    }
}

/// A filter on file sizes: between a least and a greatest size, or, when
/// the greatest size is zero, at most the least size.
#[derive(Debug, Clone, Copy)]
pub struct Size {
    pub min: u64,
    pub max: u64,
    pub min_modifier: Modifier,
    pub max_modifier: Modifier,
}

impl Default for Size {
    fn default() -> (r: Self)
        ensures
            r.min == 1,
            r.max == 40,
            r.min_modifier == Modifier::B,
            r.max_modifier == Modifier::MB,
    {
        Size { min: 1, max: 40, min_modifier: Modifier::B, max_modifier: Modifier::MB }
    }
}

/// Calls `std::path::Path::metadata` and takes the length it reports; the
/// file system answers, so nothing is stated of the answer.
#[verifier::external_body]
fn file_len(path: &str) -> (r: Option<u64>) {
    match std::path::Path::new(path).metadata() {
        Ok(m) => Some(m.len()),
        Err(_) => None,
    }
}

impl Size {
    /// The least size in bytes.
    pub open spec fn min_bytes(&self) -> int {
        self.min * unit_bytes(self.min_modifier)
    }

    /// The greatest size in bytes (zero for none).
    pub open spec fn max_bytes(&self) -> int {
        self.max * unit_bytes(self.max_modifier)
    }

    /// Whether a file of `len` bytes (`None` when it cannot be read) passes.
    pub open spec fn accepts(&self, len: Option<u64>) -> bool {
        match len {
            None => false,
            Some(l) => if self.max_bytes() == 0 {
                self.min_bytes() >= l
            } else {
                self.min_bytes() <= l <= self.max_bytes()
            },
        }
    }

    fn min_as_bytes(&self) -> (r: u64)
        requires
            self.min_bytes() <= u64::MAX,
        ensures
            r == self.min_bytes(),
    {
        self.min * self.min_modifier.bytes()
    }

    fn max_as_bytes(&self) -> (r: u64)
        requires
            self.max_bytes() <= u64::MAX,
        ensures
            r == self.max_bytes(),
    {
        self.max * self.max_modifier.bytes()
    }

    /// Whether a file of `len` bytes passes; see `accepts`.
    pub fn accepts_len(&self, len: Option<u64>) -> (r: bool)
        requires
            self.min_bytes() <= u64::MAX,
            self.max_bytes() <= u64::MAX,
        ensures
            r == self.accepts(len),
    {
        let l = match len {
            Some(l) => l,
            None => return false,
        };
        if self.max_as_bytes() == 0 {
            self.min_as_bytes() >= l
        } else {
            self.min_as_bytes() <= l && l <= self.max_as_bytes()
        }
    }
}

impl Filter for Size {
    open spec fn applicable(&self) -> bool {
        self.min_bytes() <= u64::MAX && self.max_bytes() <= u64::MAX
    }

    /// The length of the file is asked of the file system, so the filter
    /// holds for some answer.
    fn matches(&self, path: &str) -> (r: bool)
        ensures
            exists|len: Option<u64>| r == #[trigger] self.accepts(len),
    {
        let len = file_len(path);
        let r = self.accepts_len(len);
        assert(r == self.accepts(len));
        r
    }
}

/// Which date of a file a date filter looks at.
#[derive(Debug, Clone, Copy, PartialEq, Eq, Structural)]
pub enum Condition {
    Created,
    Modified,
}

impl Default for Condition {
    fn default() -> (r: Self)
        ensures
            r == Condition::Created,
    {
        Condition::Created
    }
}

impl Condition {
    /// Both conditions.
    pub fn all() -> (r: [Condition; 2])
        ensures
            r@ == seq![Condition::Created, Condition::Modified],
    {
        let r = [Condition::Created, Condition::Modified];
        assert(r@ =~= seq![Condition::Created, Condition::Modified]);
        r
    }

    /// The name the condition is shown by.
    pub fn name(&self) -> (r: &'static str)
        ensures
            r@ == match *self {
                Condition::Created => "Created"@,
                Condition::Modified => "Modified"@,
            },
    {
        match self {
            Condition::Created => "Created",
            Condition::Modified => "Modified",
        }
    }
}

} // verus!

verus! {

/// A list of filter entries that is empty lets every text pass.
pub proof fn law_empty_list_passes(k: Comparison, s: Seq<char>)
    ensures
        any_or_empty(Seq::empty(), k, s),
{
}

/// A name filter whose lists are all empty lets every module pass.
pub proof fn law_empty_name_filter_passes_all(n: Name, path: Seq<char>)
    requires
        n.contains@.len() == 0,
        n.starts_with@.len() == 0,
        n.ends_with@.len() == 0,
        n.extensions@.len() == 0,
    ensures
        n.accepts(path),
{
}

/// A size filter without a greatest size lets a file pass exactly when it
/// is at most the least size; a file whose size cannot be read never passes.
pub proof fn law_size_without_max(sz: Size, len: u64)
    requires
        sz.max_bytes() == 0,
    ensures
        sz.accepts(Some(len)) == (len <= sz.min_bytes()),
        !sz.accepts(None),
{
}

} // verus!
