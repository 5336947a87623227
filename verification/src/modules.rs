//! The loaded-module list: records, filename selection, suffix matching,
//! and the scan that picks the module whose backing file is read.
//!
//! The operating system walks the list of shared images loaded into the
//! process and reports, for each, its load bias and its path. The embedding
//! program hands those reports in as [`ModuleRecord`] values; the decisions —
//! which filename to look for, whether a path matches, and when to stop — are
//! made here.

use vstd::prelude::*;

verus! {

/// An upper bound on the system configuration property's value length; the
/// buffer the embedding program reads the property into must be at least
/// this large.
pub const PROP_VALUE_MAX: usize = 93;

/// One loaded shared image: the base address it is mapped at and the path
/// the loader reports for it. Produced transiently while the module list is
/// walked; nothing here holds on to it.
pub struct ModuleRecord {
    pub load_bias: u64,
    pub reported_path: Vec<u8>,
}

/// Whether `suffix` is a byte-exact, case-sensitive suffix of `path`.
pub open spec fn is_path_suffix(path: Seq<u8>, suffix: Seq<u8>) -> bool {
    suffix.len() <= path.len() && path.subrange(path.len() - suffix.len(), path.len() as int)
        == suffix
}

/// Compares a module's reported path against the target filename, byte for
/// byte and case-sensitively.
pub fn path_ends_with(path: &Vec<u8>, suffix: &Vec<u8>) -> (r: bool)
    ensures
        r == is_path_suffix(path@, suffix@),
{
    let plen = path.len();
    let slen = suffix.len();
    if slen > plen {
        return false;
    }
    let start = plen - slen;
    let mut k: usize = 0;
    while k < slen
        invariant
            slen <= plen,
            start == plen - slen,
            plen == path@.len(),
            slen == suffix@.len(),
            k <= slen,
            forall|t: int| 0 <= t < k ==> path@[start + t] == suffix@[t],
        decreases slen - k,
    {
        if path[start + k] != suffix[k] {
            proof {
                let sub = path@.subrange(plen - slen, plen as int);
                if sub == suffix@ {
                    assert(sub[k as int] == path@[start + k]);
                }
            }
            return false;
        }
        k += 1;
    }
    proof {
        assert(path@.subrange(plen - slen, plen as int) =~= suffix@);
    }
    true
}

/// The fixed well-known filename used when the configuration property names
/// no module.
pub open spec fn default_module_filename() -> Seq<u8> {
    seq![0x6cu8, 0x69, 0x62, 0x61, 0x72, 0x74, 0x2e, 0x73, 0x6f]
}

/// The filename the fallback strategy looks for: the configuration
/// property's value, or exactly the fixed default when the property is
/// empty.
pub open spec fn spec_target_filename(property_value: Seq<u8>) -> Seq<u8> {
    if property_value.len() == 0 {
        default_module_filename()
    } else {
        property_value
    }
}

/// Chooses the filename of the module the fallback strategy looks for, from
/// the configuration property's value as read by the embedding program.
pub fn target_filename(property_value: &Vec<u8>) -> (r: Vec<u8>)
    ensures
        r@ == spec_target_filename(property_value@),
{
    if property_value.len() == 0 {
        let mut v: Vec<u8> = Vec::new();
        v.push(0x6c);
        v.push(0x69);
        v.push(0x62);
        v.push(0x61);
        v.push(0x72);
        v.push(0x74);
        v.push(0x2e);
        v.push(0x73);
        v.push(0x6f);
        proof {
            assert(v@ =~= default_module_filename());
        }
        v
    } else {
        let mut v: Vec<u8> = Vec::new();
        let n = property_value.len();
        let mut k: usize = 0;
        while k < n
            invariant
                n == property_value@.len(),
                k <= n,
                v@ == property_value@.take(k as int),
            decreases n - k,
        {
            v.push(property_value[k]);
            k += 1;
            proof {
                assert(property_value@.take(k as int) =~= property_value@.take(k - 1).push(
                    property_value@[k - 1],
                ));
            }
        }
        proof {
            assert(v@ =~= property_value@);
        }
        v
    }
}

/// The reported paths of a module list, in order.
pub open spec fn module_paths(modules: Seq<ModuleRecord>) -> Seq<Seq<u8>> {
    modules.map(|i: int, m: ModuleRecord| m.reported_path@)
}

/// What one scan of the module list yields: the index of the matched record,
/// if any, and how many records were visited before the scan stopped.
#[derive(Clone, Copy, Debug, PartialEq, Eq, Structural)]
pub struct ModuleScan {
    pub matched: Option<usize>,
    pub visited: usize,
}

/// Walks `modules` in reported order and compares each path's suffix against
/// the target filename chosen from `property_value`.
///
/// The scan stops at the first match: the visited count equals the matched
/// index plus one, so no record past the match is ever looked at, and only
/// the matched record's backing file may be read afterwards. Without a match
/// every record is visited once.
#[verifier::loop_isolation(false)]
pub fn select_module(modules: &Vec<ModuleRecord>, property_value: &Vec<u8>) -> (r: ModuleScan)
    ensures
        ({
            let paths = module_paths(modules@);
            let fname = spec_target_filename(property_value@);
            match r.matched {
                Some(i) => {
                    &&& i < modules@.len()
                    &&& is_path_suffix(paths[i as int], fname)
                    &&& (forall|j: int| 0 <= j < i ==> !is_path_suffix(paths[j], fname))
                    &&& r.visited == i + 1
                },
                None => {
                    &&& (forall|j: int|
                        0 <= j < modules@.len() ==> !is_path_suffix(paths[j], fname))
                    &&& r.visited == modules@.len()
                },
            }
        }),
{
    let ghost paths = module_paths(modules@);
    let ghost fname = spec_target_filename(property_value@);
    let filename = target_filename(property_value);
    let n = modules.len();
    let mut i: usize = 0;
    while i < n
        invariant
            i <= n,
            forall|j: int| 0 <= j < i ==> !is_path_suffix(paths[j], fname),
        decreases n - i,
    {
        if path_ends_with(&modules[i].reported_path, &filename) {
            proof {
                assert(paths[i as int] == modules@[i as int].reported_path@);
            }
            return ModuleScan { matched: Some(i), visited: i + 1 };
        }
        proof {
            assert(paths[i as int] == modules@[i as int].reported_path@);
        }
        i += 1;
    }
    ModuleScan { matched: None, visited: n }
}

} // verus!
