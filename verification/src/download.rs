use vstd::prelude::*;

use crate::bytes::{basename, basename_of, push_all};

verus! {

/// `https://lf-scm-us.larksuitecdn.com/whiteboard_icon_source/`:
/// the fixed host and path prefix every asset is fetched from.
pub open spec fn base_url() -> Seq<u8> {
    seq![104u8, 116u8, 116u8, 112u8, 115u8, 58u8, 47u8, 47u8, 108u8, 102u8, 45u8, 115u8, 99u8, 109u8, 45u8, 117u8, 115u8, 46u8, 108u8, 97u8, 114u8, 107u8, 115u8, 117u8, 105u8, 116u8, 101u8, 99u8, 100u8, 110u8, 46u8, 99u8, 111u8, 109u8, 47u8, 119u8, 104u8, 105u8, 116u8, 101u8, 98u8, 111u8, 97u8, 114u8, 100u8, 95u8, 105u8, 99u8, 111u8, 110u8, 95u8, 115u8, 111u8, 117u8, 114u8, 99u8, 101u8, 47u8]
}

/// Builds the bytes of the fixed base URL.
fn lit_base_url() -> (v: Vec<u8>)
    ensures
        v@ == base_url(),
{
    let mut v: Vec<u8> = Vec::new();
    v.push(104u8);
    v.push(116u8);
    v.push(116u8);
    v.push(112u8);
    v.push(115u8);
    v.push(58u8);
    v.push(47u8);
    v.push(47u8);
    v.push(108u8);
    v.push(102u8);
    v.push(45u8);
    v.push(115u8);
    v.push(99u8);
    v.push(109u8);
    v.push(45u8);
    v.push(117u8);
    v.push(115u8);
    v.push(46u8);
    v.push(108u8);
    v.push(97u8);
    v.push(114u8);
    v.push(107u8);
    v.push(115u8);
    v.push(117u8);
    v.push(105u8);
    v.push(116u8);
    v.push(101u8);
    v.push(99u8);
    v.push(100u8);
    v.push(110u8);
    v.push(46u8);
    v.push(99u8);
    v.push(111u8);
    v.push(109u8);
    v.push(47u8);
    v.push(119u8);
    v.push(104u8);
    v.push(105u8);
    v.push(116u8);
    v.push(101u8);
    v.push(98u8);
    v.push(111u8);
    v.push(97u8);
    v.push(114u8);
    v.push(100u8);
    v.push(95u8);
    v.push(105u8);
    v.push(99u8);
    v.push(111u8);
    v.push(110u8);
    v.push(95u8);
    v.push(115u8);
    v.push(111u8);
    v.push(117u8);
    v.push(114u8);
    v.push(99u8);
    v.push(101u8);
    v.push(47u8);
    v
}

/// The fetch URL of one manifest entry: the fixed base URL with the
/// entry's relative path after it.
pub fn svg_url(path: &Vec<u8>) -> (url: Vec<u8>)
    ensures
        url@ == base_url() + path@,
{
    let mut url = lit_base_url();
    push_all(&mut url, path);
    url
}

/// What one manifest entry asks of the run: fetch `url` and store the
/// recolored body under `file_name` in the target directory.
pub struct DownloadPlan {
    pub url: Vec<u8>,
    pub file_name: Vec<u8>,
}

/// Lays the whole batch out in manifest order: the plan at `i` holds the
/// fetch URL and the local file name derived from the path at `i`.
pub fn plan_downloads(paths: &Vec<Vec<u8>>) -> (plans: Vec<DownloadPlan>)
    ensures
        plans@.len() == paths@.len(),
        forall|i: int|
            0 <= i < paths@.len() ==> (#[trigger] plans@[i]).url@ == base_url() + paths@[i]@
                && plans@[i].file_name@ == basename_of(paths@[i]@),
{
    let mut plans: Vec<DownloadPlan> = Vec::new();
    let mut i: usize = 0;
    while i < paths.len()
        invariant
            i <= paths@.len(),
            plans@.len() == i,
            forall|j: int|
                0 <= j < i ==> (#[trigger] plans@[j]).url@ == base_url() + paths@[j]@
                    && plans@[j].file_name@ == basename_of(paths@[j]@),
        decreases paths@.len() - i,
    {
        let entry = &paths[i];
        let url = svg_url(entry);
        let file_name = basename(entry);
        plans.push(DownloadPlan { url, file_name });
        i = i + 1;
    }
    plans
}

} // verus!
