//! Single-entry extraction from a container plaintext: which inner entry to
//! copy out. The container parsing itself is outside work; this module
//! decides the target name and the entry to select, over plain values.

use crate::bytes::{bytes_eq, copy_bytes, dec_digits, push_dec_u64};
use vstd::prelude::*;

verus! {

/// `file_`, as bytes.
pub open spec fn file_prefix() -> Seq<u8> {
    seq![102u8, 105u8, 108u8, 101u8, 95u8]
}

/// Path separators are replaced so the target stays a bare entry name.
pub open spec fn strip_separators(s: Seq<u8>) -> Seq<u8> {
    s.map_values(|b: u8| if b == 47 || b == 92 { 95u8 } else { b })
}

/// The name of the entry to extract: the manifest's inner-file name when it
/// has one, else `file_<index+1>`; with `/` and `\` replaced by `_`.
pub open spec fn entry_name_spec(original_name: Option<Seq<u8>>, file_index: u64) -> Seq<u8> {
    let base = match original_name {
        Option::Some(n) => n,
        Option::None => file_prefix() + dec_digits((file_index + 1) as nat),
    };
    strip_separators(base)
}

/// Builds the target entry name for single-entry extraction.
#[verifier::loop_isolation(false)]
pub fn entry_target_name(original_name: &Option<Vec<u8>>, file_index: u64) -> (r: Vec<u8>)
    requires
        file_index < 0xffff_ffff_ffff_ffff,
    ensures
        r@ == entry_name_spec(
            match original_name {
                Option::Some(n) => Option::Some(n@),
                Option::None => Option::None,
            },
            file_index,
        ),
{
    let base: Vec<u8> = match original_name {
        Some(n) => copy_bytes(n.as_slice()),
        None => {
            let mut v: Vec<u8> = Vec::new();
            v.push(102);
            v.push(105);
            v.push(108);
            v.push(101);
            v.push(95);
            proof {
                assert(v@ =~= file_prefix());
            }
            push_dec_u64(&mut v, file_index + 1);
            v
        },
    };
    let ghost bs = base@;
    let mut out: Vec<u8> = Vec::new();
    let mut i: usize = 0;
    while i < base.len()
        invariant
            i <= bs.len(),
            base@ == bs,
            out@ == strip_separators(bs.take(i as int)),
        decreases bs.len() - i,
    {
        let b = base[i];
        let c = if b == 47 || b == 92 {
            95
        } else {
            b
        };
        out.push(c);
        proof {
            assert(strip_separators(bs.take(i + 1 as int)) =~= strip_separators(
                bs.take(i as int),
            ).push(c));
        }
        i = i + 1;
    }
    proof {
        assert(bs.take(bs.len() as int) =~= bs);
    }
    out
}

/// Whether some entry name equals the target exactly.
pub open spec fn has_name(names: Seq<Seq<u8>>, target: Seq<u8>) -> bool {
    exists|j: int| 0 <= j < names.len() && names[j] == target
}

/// Selects the entry to extract from the container's entry names, in
/// container order: the first entry named exactly like the target when one
/// exists, else the entry at the requested position, else none when the
/// position is out of range.
#[verifier::loop_isolation(false)]
pub fn select_entry(names: &Vec<Vec<u8>>, target: &[u8], file_index: usize) -> (r: Option<usize>)
    ensures
        ({
            let ns = names@.map_values(|n: Vec<u8>| n@);
            match r {
                Some(j) => {
                    &&& j < ns.len()
                    &&& (if has_name(ns, target@) {
                        ns[j as int] == target@ && forall|k: int| 0 <= k < j ==> ns[k] != target@
                    } else {
                        j == file_index
                    })
                },
                None => !has_name(ns, target@) && file_index >= ns.len(),
            }
        }),
{
    let ghost ns = names@.map_values(|n: Vec<u8>| n@);
    let mut i: usize = 0;
    while i < names.len()
        invariant
            i <= ns.len(),
            forall|k: int| 0 <= k < i ==> ns[k] != target@,
        decreases ns.len() - i,
    {
        if bytes_eq(names[i].as_slice(), target) {
            proof {
                assert(ns[i as int] == target@);
            }
            return Some(i);
        }
        i = i + 1;
    }
    proof {
        assert(!has_name(ns, target@));
    }
    if file_index < names.len() {
        Some(file_index)
    } else {
        None
    }
}

} // verus!
