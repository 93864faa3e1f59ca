//! The asset registry mapping opaque asset ids to source paths, the
//! cache-file naming rule, and the supported-extension rule.

use vstd::prelude::*;
use vstd::string::StringExecFns;

verus! {

/// The registry: (asset id, source path) pairs; a later registration of
/// the same id wins.
pub struct AssetRegistry {
    entries: Vec<(String, String)>,
}

/// The path registered for `id` among the first `n` pairs, latest first.
pub open spec fn sp_path_for(es: Seq<(Seq<char>, Seq<char>)>, id: Seq<char>, n: int) -> Option<
    Seq<char>,
>
    decreases n,
{
    if n <= 0 {
        Option::None
    } else if es[n - 1].0 == id {
        Option::Some(es[n - 1].1)
    } else {
        sp_path_for(es, id, n - 1)
    }
}

impl AssetRegistry {
    /// The registered pairs, in registration order.
    pub closed spec fn sp_entries(self) -> Seq<(Seq<char>, Seq<char>)> {
        self.entries@.map_values(|p: (String, String)| (p.0@, p.1@))
    }

    /// An empty registry.
    pub fn new() -> (r: AssetRegistry)
        ensures
            r.sp_entries().len() == 0,
    {
        AssetRegistry { entries: Vec::new() }
    }

    /// Replace the registry's contents with the given (id, path) pairs;
    /// the old registration is discarded whole, since asset ids are not
    /// stable across folder scans.
    pub fn register_assets(&mut self, assets: Vec<(String, String)>)
        ensures
            final(self).sp_entries() == assets@.map_values(|p: (String, String)| (p.0@, p.1@)),
    {
        self.entries = assets;
    }

    /// The path registered for `id`, if any; repeated registrations of one
    /// id resolve to the most recent pair.
    pub fn path_for(&self, id: &String) -> (r: Option<String>)
        ensures
            match r {
                Some(p) => sp_path_for(self.sp_entries(), id@, self.sp_entries().len() as int)
                    == Option::Some(p@),
                None => sp_path_for(self.sp_entries(), id@, self.sp_entries().len() as int)
                    is None,
            },
    {
        let mut n: usize = self.entries.len();
        while n > 0
            invariant
                n <= self.entries@.len(),
                sp_path_for(self.sp_entries(), id@, self.sp_entries().len() as int) == sp_path_for(
                    self.sp_entries(),
                    id@,
                    n as int,
                ),
            decreases n,
        {
            if self.entries[n - 1].0 == *id {
                return Some(self.entries[n - 1].1.clone());
            }
            n = n - 1;
        }
        None
    }
}

/// The on-disk cache file name for an asset: the id with the given suffix,
/// under the given directory.
pub fn cached_path(dir: &str, asset_id: &str, suffix: &str) -> (r: String)
    ensures
        r@ == dir@ + "/"@ + asset_id@ + "."@ + suffix@,
{
    let mut s = String::from_str(dir);
    s.append("/");
    s.append(asset_id);
    s.append(".");
    s.append(suffix);
    s
}

/// An ASCII byte with any upper-case letter folded to lower case.
pub open spec fn sp_lower_byte(b: int) -> int {
    if 65 <= b <= 90 {
        b + 32
    } else {
        b
    }
}

/// A byte string with ASCII letters folded to lower case.
pub open spec fn sp_lower(s: Seq<u8>) -> Seq<u8> {
    Seq::new(s.len(), |i: int| sp_lower_byte(s[i] as int) as u8)
}

/// Whether a lower-cased extension names a supported source format.
pub open spec fn sp_is_supported_ext(s: Seq<u8>) -> bool {
    let l = sp_lower(s);
    ||| l == seq![100u8, 110u8, 103u8]  // dng
    ||| l == seq![110u8, 101u8, 102u8]  // nef
    ||| l == seq![99u8, 114u8, 50u8]  // cr2
    ||| l == seq![99u8, 114u8, 51u8]  // cr3
    ||| l == seq![97u8, 114u8, 119u8]  // arw
    ||| l == seq![114u8, 97u8, 102u8]  // raf
    ||| l == seq![114u8, 119u8, 50u8]  // rw2
    ||| l == seq![111u8, 114u8, 102u8]  // orf
    ||| l == seq![115u8, 114u8, 119u8]  // srw
    ||| l == seq![104u8, 101u8, 105u8, 99u8]  // heic
    ||| l == seq![106u8, 112u8, 103u8]  // jpg
    ||| l == seq![106u8, 112u8, 101u8, 103u8]  // jpeg
    ||| l == seq![112u8, 110u8, 103u8]  // png
}

/// Whether `l` is exactly the three given bytes.
fn is_lit3(l: &Vec<u8>, b0: u8, b1: u8, b2: u8) -> (r: bool)
    ensures
        r == (l@ == seq![b0, b1, b2]),
{
    if l.len() == 3 && l[0] == b0 && l[1] == b1 && l[2] == b2 {
        proof {
            assert(l@ =~= seq![b0, b1, b2]);
        }
        true
    } else {
        proof {
            if l@ =~= seq![b0, b1, b2] {
                assert(l@.len() == 3);
                assert(l@[0] == b0 && l@[1] == b1 && l@[2] == b2);
            }
        }
        false
    }
}

/// Whether `l` is exactly the four given bytes.
fn is_lit4(l: &Vec<u8>, b0: u8, b1: u8, b2: u8, b3: u8) -> (r: bool)
    ensures
        r == (l@ == seq![b0, b1, b2, b3]),
{
    if l.len() == 4 && l[0] == b0 && l[1] == b1 && l[2] == b2 && l[3] == b3 {
        proof {
            assert(l@ =~= seq![b0, b1, b2, b3]);
        }
        true
    } else {
        proof {
            if l@ =~= seq![b0, b1, b2, b3] {
                assert(l@.len() == 4);
                assert(l@[0] == b0 && l@[1] == b1 && l@[2] == b2 && l@[3] == b3);
            }
        }
        false
    }
}

/// Decide whether a file extension (as bytes, any case) names a supported
/// source format.
pub fn is_supported(extension: &Vec<u8>) -> (r: bool)
    ensures
        r == sp_is_supported_ext(extension@),
{
    let mut l: Vec<u8> = Vec::new();
    let mut i: usize = 0;
    while i < extension.len()
        invariant
            i <= extension@.len(),
            l@.len() == i,
            forall|j: int| 0 <= j < i ==> l@[j] as int == sp_lower_byte(extension@[j] as int),
        decreases extension@.len() - i,
    {
        let b = extension[i];
        if 65 <= b && b <= 90 {
            l.push(b + 32);
        } else {
            l.push(b);
        }
        i = i + 1;
    }
    proof {
        assert(l@ =~= sp_lower(extension@));
    }
    is_lit3(&l, 100, 110, 103) || is_lit3(&l, 110, 101, 102) || is_lit3(&l, 99, 114, 50)
        || is_lit3(&l, 99, 114, 51) || is_lit3(&l, 97, 114, 119) || is_lit3(&l, 114, 97, 102)
        || is_lit3(&l, 114, 119, 50) || is_lit3(&l, 111, 114, 102) || is_lit3(&l, 115, 114, 119)
        || is_lit4(&l, 104, 101, 105, 99) || is_lit3(&l, 106, 112, 103) || is_lit4(
        &l,
        106,
        112,
        101,
        103,
    ) || is_lit3(&l, 112, 110, 103)
}

} // verus!
