//! Sorting the files of a run by what the rule decides for each.
use crate::fix_rule::{ascii_lowercase, lower_ascii, FileDecision, FixRule};
use vstd::prelude::*;

verus! {

/// What `std::path::Path::extension` gives for a path: the text after the
/// last dot of its file name, empty where it has none.
pub uninterp spec fn path_extension(p: Seq<char>) -> Seq<char>;

/// Relies on `std::path::Path::extension` for the extension of `path`, and
/// gives the empty string where there is none.
#[verifier::external_body]
fn path_extension_of(path: &str) -> (r: String)
    ensures
        r@ == path_extension(path@),
{
    std::path::Path::new(path).extension().unwrap_or_default().to_str().unwrap_or_default().to_string()
}

/// The lower-cased extension of a path, without its dot; empty if it has none.
pub open spec fn file_ext(path: Seq<char>) -> Seq<char> {
    lower_ascii(path_extension(path))
}

/// The lower-cased extension of `path`, without its dot; empty if it has none.
pub fn get_extension(path: &String) -> (r: String)
    ensures
        r@ == file_ext(path@),
{
    let ext = path_extension_of(path.as_str());
    ascii_lowercase(ext.as_str())
}

impl FixRule {
    /// The decision for the file at `path`.
    pub fn decide_for_path(&self, path: &String) -> (d: FileDecision)
        ensures
            d == self.decision(file_ext(path@)),
    {
        let ext = get_extension(path);
        self.decide(&ext)
    }
}

/// The files of `files`, in order, for which `rule` decides `d`.
pub open spec fn decided(rule: FixRule, files: Seq<String>, d: FileDecision) -> Seq<String>
    decreases files.len(),
{
    if files.len() == 0 {
        Seq::empty()
    } else {
        let before = decided(rule, files.drop_last(), d);
        if rule.decision(file_ext(files.last()@)) == d {
            before.push(files.last())
        } else {
            before
        }
    }
}

/// The paths that a list of borrowed paths holds.
pub open spec fn paths(v: Seq<&String>) -> Seq<String> {
    v.map_values(|p: &String| *p)
}

/// The files of one run, sorted into those that gain a BOM and those that
/// lose it.
pub struct BomFormatter<'a> {
    pub fix_rule: &'a FixRule,
    pub files_to_add_bom: Vec<&'a String>,
    pub files_to_remove_bom: Vec<&'a String>,
}

impl<'a> BomFormatter<'a> {
    /// A formatter for `fix_rule` with no file registered.
    pub fn new(fix_rule: &'a FixRule) -> (r: Self)
        ensures
            *r.fix_rule == *fix_rule,
            r.files_to_add_bom@.len() == 0,
            r.files_to_remove_bom@.len() == 0,
    {
        Self { fix_rule, files_to_add_bom: Vec::new(), files_to_remove_bom: Vec::new() }
    }

    /// Appends to `list` the files of `files` for which the rule decides `d`.
    fn register_decided(rule: &FixRule, list: &mut Vec<&'a String>, files: &'a Vec<String>, d: FileDecision)
        ensures
            paths(final(list)@) == paths(old(list)@) + decided(*rule, files@, d),
    {
        let mut i: usize = 0;
        while i < files.len()
            invariant
                i <= files.len(),
                paths(list@) == paths(old(list)@) + decided(*rule, files@.take(i as int), d),
            decreases files.len() - i,
        {
            let file = &files[i];
            let ghost before = list@;
            if rule.decide_for_path(file) == d {
                list.push(file);
                assert(paths(list@) =~= paths(before).push(*file));
            }
            proof {
                let taken = files@.take(i + 1);
                assert(taken.drop_last() == files@.take(i as int));
                assert(taken.last() == files@[i as int]);
                assert(paths(list@) =~= paths(old(list)@) + decided(*rule, taken, d));
            }
            i += 1;
        }
        assert(files@.take(files@.len() as int) == files@);
    }

    /// Registers the files of `files` that gain a BOM.
    pub fn register_add_bom(&mut self, files: &'a Vec<String>)
        ensures
            final(self).fix_rule == old(self).fix_rule,
            final(self).files_to_remove_bom == old(self).files_to_remove_bom,
            paths(final(self).files_to_add_bom@) == paths(old(self).files_to_add_bom@) + decided(
                *old(self).fix_rule,
                files@,
                FileDecision::AddBom,
            ),
    {
        Self::register_decided(self.fix_rule, &mut self.files_to_add_bom, files, FileDecision::AddBom);
    }

    /// Registers the files of `files` that lose their BOM.
    pub fn register_remove_bom(&mut self, files: &'a Vec<String>)
        ensures
            final(self).fix_rule == old(self).fix_rule,
            final(self).files_to_add_bom == old(self).files_to_add_bom,
            paths(final(self).files_to_remove_bom@) == paths(old(self).files_to_remove_bom@)
                + decided(*old(self).fix_rule, files@, FileDecision::RemoveBom),
    {
        Self::register_decided(
            self.fix_rule,
            &mut self.files_to_remove_bom,
            files,
            FileDecision::RemoveBom,
        );
    }

    /// Registers every file of `files` under the decision that the rule makes
    /// for it.
    pub fn register_files(&mut self, files: &'a Vec<String>)
        ensures
            final(self).fix_rule == old(self).fix_rule,
            paths(final(self).files_to_add_bom@) == paths(old(self).files_to_add_bom@) + decided(
                *old(self).fix_rule,
                files@,
                FileDecision::AddBom,
            ),
            paths(final(self).files_to_remove_bom@) == paths(old(self).files_to_remove_bom@)
                + decided(*old(self).fix_rule, files@, FileDecision::RemoveBom),
    {
        self.register_add_bom(files);
        self.register_remove_bom(files);
    }
}

} // verus!
