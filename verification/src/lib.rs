use vstd::prelude::*;

pub mod bytes;
pub mod download;
pub mod report;
pub mod svg;

use crate::bytes::{basename, basename_of, push_all, range_eq};

verus! {

/// The command-line surface of the tool.
pub struct Cli {
    pub command: Commands,
}

/// The one subcommand: pick a manifest file and run the batch.
pub enum Commands {
    Choice,
}

impl Cli {
    /// The decision behind startup: under the `Choice` command, the
    /// manifest file the user picked and the directory they entered
    /// become the dialogue that drives the run.
    pub fn init(self, file: String, dir: String) -> (d: Dialogue)
        ensures
            d.file == file,
            d.dir == dir,
    {
        match self.command {
            Commands::Choice => Dialogue { file, dir },
        }
    }
}

/// The two answers that drive a run: the manifest file to read and the
/// directory to write downloaded icons into.
pub struct Dialogue {
    pub file: String,
    pub dir: String,
}

/// The literal `.json` file-name suffix.
pub open spec fn dot_json() -> Seq<u8> {
    seq![46u8, 106u8, 115u8, 111u8, 110u8]
}

/// Builds the bytes of `.json`.
fn lit_dot_json() -> (v: Vec<u8>)
    ensures
        v@ == dot_json(),
{
    let mut v: Vec<u8> = Vec::new();
    v.push(46);
    v.push(106);
    v.push(115);
    v.push(111);
    v.push(110);
    v
}

/// A path names a JSON file: what stands after its last `/` ends in
/// `.json` and holds at least one byte before that suffix.
pub open spec fn is_json_path(s: Seq<u8>) -> bool {
    let name = basename_of(s);
    name.len() >= 6 && name.subrange(name.len() - 5, name.len() as int) == dot_json()
}

/// Whether one candidate path names a JSON file.
fn is_json_file(path: &Vec<u8>) -> (r: bool)
    ensures
        r == is_json_path(path@),
{
    let name = basename(path);
    if name.len() < 6 {
        return false;
    }
    let suffix = lit_dot_json();
    range_eq(&name, name.len() - 5, name.len(), &suffix)
}

/// A fresh vector holding the same bytes as `s`.
fn copy_bytes(s: &Vec<u8>) -> (c: Vec<u8>)
    ensures
        c@ == s@,
{
    let mut c: Vec<u8> = Vec::new();
    push_all(&mut c, s);
    proof {
        assert(Seq::<u8>::empty() + s@ =~= s@);
    }
    c
}

impl Dialogue {
    /// Keeps, in their given order, the candidate paths that name JSON
    /// files: the manifests a user may pick from. The caller hands in
    /// the paths that a walk of the working directory found.
    pub fn find_json_files(candidates: &Vec<Vec<u8>>) -> (found: Vec<Vec<u8>>)
        ensures
            found@.map_values(|p: Vec<u8>| p@) == candidates@.map_values(|p: Vec<u8>| p@).filter(
                |q: Seq<u8>| is_json_path(q),
            ),
    {
        let ghost pred = |q: Seq<u8>| is_json_path(q);
        let ghost all = candidates@.map_values(|p: Vec<u8>| p@);
        let mut found: Vec<Vec<u8>> = Vec::new();
        let mut i: usize = 0;
        while i < candidates.len()
            invariant
                i <= candidates@.len(),
                all == candidates@.map_values(|p: Vec<u8>| p@),
                pred == (|q: Seq<u8>| is_json_path(q)),
                found@.map_values(|p: Vec<u8>| p@) == all.take(i as int).filter(pred),
            decreases candidates@.len() - i,
        {
            let ghost found_pre = found@;
            if is_json_file(&candidates[i]) {
                let kept = copy_bytes(&candidates[i]);
                found.push(kept);
            }
            proof {
                let taken = all.take(i as int);
                assert(all.take(i + 1) =~= taken.push(all[i as int]));
                taken.lemma_filter_push(all[i as int], pred);
                assert(all[i as int] == candidates@[i as int]@);
                if is_json_path(candidates@[i as int]@) {
                    assert(found@.map_values(|p: Vec<u8>| p@) =~= found_pre.map_values(
                        |p: Vec<u8>| p@,
                    ).push(all[i as int]));
                } else {
                    assert(found@.map_values(|p: Vec<u8>| p@) =~= found_pre.map_values(
                        |p: Vec<u8>| p@,
                    ));
                }
            }
            i = i + 1;
        }
        proof {
            assert(all.take(candidates@.len() as int) =~= all);
        }
        found
    }
}

} // verus!
