//! Resolution of the requested fix mode and the per-extension overrides into a
//! [`FixRule`], and the per-file decision that a rule makes.
use vstd::prelude::*;

verus! {

/// The disposition for files whose extension no override names.
#[derive(PartialEq, Eq, Structural, Debug, Clone, Copy)]
pub enum FixMode {
    Add,
    Remove,
}

/// The single mode that the caller's flags request.
#[derive(PartialEq, Eq, Structural, Debug, Clone, Copy)]
pub enum FixModeArgs {
    Add,
    Remove,
    AddStrict,
}

/// What a rule decides for one file.
#[derive(PartialEq, Eq, Structural, Debug, Clone, Copy)]
pub enum FileDecision {
    AddBom,
    RemoveBom,
    NoOp,
}

/// Why no rule could be built.
#[derive(PartialEq, Eq, Structural, Debug, Clone, Copy)]
pub enum ResolveError {
    MultipleModes,
    AddOverrideInAddMode,
    RemoveOverrideInRemoveMode,
    AddOverrideInAddStrictMode,
    OverlappingOverrides,
}

impl ResolveError {
    pub open spec fn message(self) -> Seq<char> {
        match self {
            ResolveError::MultipleModes => "You can not set multiple fix mode."@,
            ResolveError::AddOverrideInAddMode => "You can not set add_bom with add mode."@,
            ResolveError::RemoveOverrideInRemoveMode =>
                "You can not set remove_bom with remove mode."@,
            ResolveError::AddOverrideInAddStrictMode =>
                "You can not set add_bom with add-strict mode."@,
            ResolveError::OverlappingOverrides =>
                "You can not both add and remove BOM for one extension."@,
        }
    }

    /// The message shown to the user.
    pub fn to_string(&self) -> (r: String)
        ensures
            r@ == self.message(),
    {
        match self {
            ResolveError::MultipleModes => "You can not set multiple fix mode.".to_owned(),
            ResolveError::AddOverrideInAddMode => "You can not set add_bom with add mode.".to_owned(),
            ResolveError::RemoveOverrideInRemoveMode =>
                "You can not set remove_bom with remove mode.".to_owned(),
            ResolveError::AddOverrideInAddStrictMode =>
                "You can not set add_bom with add-strict mode.".to_owned(),
            ResolveError::OverlappingOverrides =>
                "You can not both add and remove BOM for one extension.".to_owned(),
        }
    }
}

/// The caller's intent: at most one mode flag, and two optional lists of
/// extensions whose BOM is always added or always removed.
pub struct Args {
    pub path: Option<String>,
    pub add: bool,
    pub remove: bool,
    pub add_strict: bool,
    pub add_bom: Option<Vec<String>>,
    pub remove_bom: Option<Vec<String>>,
}

/// A resolved rule: the blanket mode and the extensions that override it.
pub struct FixRule {
    pub mode: FixMode,
    pub add: Vec<String>,
    pub remove: Vec<String>,
}

pub open spec fn lower_char(c: char) -> char {
    if 'A' <= c && c <= 'Z' {
        ((c as u32) + 32) as char
    } else {
        c
    }
}

/// ASCII lower-casing: `A`..`Z` become `a`..`z`, every other character stays.
pub open spec fn lower_ascii(s: Seq<char>) -> Seq<char> {
    s.map_values(|c: char| lower_char(c))
}

/// The extensions that a list holds, as a set.
pub open spec fn ext_set(v: Seq<String>) -> Set<Seq<char>> {
    Set::new(|e: Seq<char>| exists|i: int| 0 <= i < v.len() && v[i]@ == e)
}

/// The lower-cased extensions of a list, as a set.
pub open spec fn lowered_set(v: Seq<String>) -> Set<Seq<char>> {
    Set::new(|e: Seq<char>| exists|i: int| 0 <= i < v.len() && lower_ascii(v[i]@) == e)
}

/// No extension stands twice in the list.
pub open spec fn distinct_exts(v: Seq<String>) -> bool {
    forall|i: int, j: int| 0 <= i < j < v.len() ==> v[i]@ != v[j]@
}

/// The extensions whose BOM plain add mode always removes: formats whose
/// tools tend to choke on a BOM.
pub open spec fn default_remove_set() -> Set<Seq<char>> {
    set![
        "html"@, "css"@, "svg"@, "js"@, "ts"@, "md"@, "json"@, "toml"@, "yaml"@, "csv"@,
        "xml"@, "ini"@, "conf"@, "cfg"@, "sh"@, "bat"@, "ps1"@,
    ]
}

/// The lower-cased extensions of an optional override list.
pub open spec fn overrides(l: Option<Vec<String>>) -> Set<Seq<char>> {
    match l {
        Some(v) => lowered_set(v@),
        None => Set::empty(),
    }
}

/// The mode that the flags request, or `None` when more than one is set.
/// No flag at all requests removal.
pub open spec fn requested_mode(a: Args) -> Option<FixModeArgs> {
    if (a.add && a.remove) || (a.add && a.add_strict) || (a.remove && a.add_strict) {
        None
    } else if a.add {
        Some(FixModeArgs::Add)
    } else if a.remove {
        Some(FixModeArgs::Remove)
    } else if a.add_strict {
        Some(FixModeArgs::AddStrict)
    } else {
        Some(FixModeArgs::Remove)
    }
}

/// The error of an override list that mode `m` forbids, if that list is given.
pub open spec fn override_error(a: Args, m: FixModeArgs) -> Option<ResolveError> {
    match m {
        FixModeArgs::Add => if a.add_bom.is_some() {
            Some(ResolveError::AddOverrideInAddMode)
        } else {
            None
        },
        FixModeArgs::Remove => if a.remove_bom.is_some() {
            Some(ResolveError::RemoveOverrideInRemoveMode)
        } else {
            None
        },
        FixModeArgs::AddStrict => if a.add_bom.is_some() {
            Some(ResolveError::AddOverrideInAddStrictMode)
        } else {
            None
        },
    }
}

/// The error that resolving `a` reports, if any.
pub open spec fn resolve_error(a: Args) -> Option<ResolveError> {
    match requested_mode(a) {
        None => Some(ResolveError::MultipleModes),
        Some(m) => override_error(a, m),
    }
}

pub open spec fn resolved_mode(m: FixModeArgs) -> FixMode {
    match m {
        FixModeArgs::Remove => FixMode::Remove,
        _ => FixMode::Add,
    }
}

pub open spec fn resolved_add(a: Args, m: FixModeArgs) -> Set<Seq<char>> {
    match m {
        FixModeArgs::Remove => overrides(a.add_bom),
        _ => Set::empty(),
    }
}

pub open spec fn resolved_remove(a: Args, m: FixModeArgs) -> Set<Seq<char>> {
    match m {
        FixModeArgs::Add => overrides(a.remove_bom).union(default_remove_set()),
        FixModeArgs::AddStrict => overrides(a.remove_bom),
        FixModeArgs::Remove => Set::empty(),
    }
}

/// `rule` is what mode `m` makes of the override lists of `a`.
pub open spec fn resolves_to(a: Args, m: FixModeArgs, rule: FixRule) -> bool {
    &&& rule.wf()
    &&& rule.mode == resolved_mode(m)
    &&& rule.add_set() == resolved_add(a, m)
    &&& rule.remove_set() == resolved_remove(a, m)
}

impl FixRule {
    pub open spec fn add_set(&self) -> Set<Seq<char>> {
        ext_set(self.add@)
    }

    pub open spec fn remove_set(&self) -> Set<Seq<char>> {
        ext_set(self.remove@)
    }

    pub open spec fn lists_distinct(&self) -> bool {
        distinct_exts(self.add@) && distinct_exts(self.remove@)
    }

    /// Each list is a set, and no extension is both forced to gain and to
    /// lose its BOM.
    pub open spec fn wf(&self) -> bool {
        self.lists_distinct() && self.add_set().disjoint(self.remove_set())
    }

    /// The decision for a file with extension `ext`: the remove overrides win,
    /// then the add overrides, then the blanket mode.
    pub open spec fn decision(&self, ext: Seq<char>) -> FileDecision {
        if self.remove_set().contains(ext) {
            FileDecision::RemoveBom
        } else if self.add_set().contains(ext) {
            FileDecision::AddBom
        } else {
            match self.mode {
                FixMode::Add => FileDecision::AddBom,
                FixMode::Remove => FileDecision::RemoveBom,
            }
        }
    }
}

/// Relies on `str::to_ascii_lowercase`: ASCII letters `A`..`Z` become `a`..`z`,
/// every other character is kept.
#[verifier::external_body]
pub(crate) fn ascii_lowercase(s: &str) -> (r: String)
    ensures
        r@ == lower_ascii(s@),
{
    s.to_ascii_lowercase()
}

/// Whether `exts` holds `ext`.
fn contains_ext(exts: &Vec<String>, ext: &String) -> (r: bool)
    ensures
        r == ext_set(exts@).contains(ext@),
{
    let mut i: usize = 0;
    while i < exts.len()
        invariant
            i <= exts.len(),
            forall|j: int| 0 <= j < i ==> exts@[j]@ != ext@,
        decreases exts.len() - i,
    {
        if exts[i] == *ext {
            return true;
        }
        i += 1;
    }
    false
}

/// Adds `ext` to the set that `exts` holds.
fn insert_ext(exts: &mut Vec<String>, ext: String)
    ensures
        distinct_exts(old(exts)@) ==> distinct_exts(final(exts)@),
        ext_set(final(exts)@) == ext_set(old(exts)@).insert(ext@),
{
    if !contains_ext(exts, &ext) {
        exts.push(ext);
    }
    assert(ext_set(exts@) =~= ext_set(old(exts)@).insert(ext@)) by {
        if ext_set(old(exts)@).contains(ext@) {
            assert(exts@ == old(exts)@);
        } else {
            assert(exts@ == old(exts)@.push(ext));
            assert forall|e: Seq<char>| ext_set(exts@).contains(e) implies
                ext_set(old(exts)@).insert(ext@).contains(e) by {
                let i = choose|i: int| 0 <= i < exts@.len() && exts@[i]@ == e;
                if i < old(exts)@.len() {
                    assert(old(exts)@[i]@ == e);
                }
            }
            assert forall|e: Seq<char>| ext_set(old(exts)@).insert(ext@).contains(e) implies
                ext_set(exts@).contains(e) by {
                if e == ext@ {
                    assert(exts@[exts@.len() - 1]@ == e);
                } else {
                    let i = choose|i: int| 0 <= i < old(exts)@.len() && old(exts)@[i]@ == e;
                    assert(exts@[i]@ == e);
                }
            }
        }
    }
}

/// Adds the lower-cased form of each extension of `list` to `exts`.
fn insert_lowered(exts: &mut Vec<String>, list: &Vec<String>)
    ensures
        distinct_exts(old(exts)@) ==> distinct_exts(final(exts)@),
        ext_set(final(exts)@) == ext_set(old(exts)@).union(lowered_set(list@)),
{
    let ghost start = exts@;
    let mut i: usize = 0;
    while i < list.len()
        invariant
            i <= list.len(),
            distinct_exts(start) ==> distinct_exts(exts@),
            ext_set(exts@) == ext_set(start).union(lowered_set(list@.subrange(0, i as int))),
        decreases list.len() - i,
    {
        let ext = ascii_lowercase(list[i].as_str());
        insert_ext(exts, ext);
        proof {
            let before = list@.subrange(0, i as int);
            let after = list@.subrange(0, i + 1);
            assert(lowered_set(after) =~= lowered_set(before).insert(lower_ascii(list@[i as int]@))) by {
                assert forall|e: Seq<char>| lowered_set(after).contains(e) implies
                    lowered_set(before).insert(lower_ascii(list@[i as int]@)).contains(e) by {
                    let k = choose|k: int| 0 <= k < after.len() && lower_ascii(after[k]@) == e;
                    if k < i {
                        assert(before[k] == after[k]);
                    }
                }
                assert forall|e: Seq<char>| lowered_set(before).insert(lower_ascii(list@[i as int]@)).contains(e)
                    implies lowered_set(after).contains(e) by {
                    if e == lower_ascii(list@[i as int]@) {
                        assert(lower_ascii(after[i as int]@) == e);
                    } else {
                        let k = choose|k: int| 0 <= k < before.len() && lower_ascii(before[k]@) == e;
                        assert(lower_ascii(after[k]@) == e);
                    }
                }
            }
            assert(ext_set(exts@) =~= ext_set(start).union(lowered_set(after)));
        }
        i += 1;
    }
    assert(list@.subrange(0, list@.len() as int) == list@);
}

/// Adds the extensions of [`default_remove_set`] to `exts`.
fn insert_defaults(exts: &mut Vec<String>)
    ensures
        distinct_exts(old(exts)@) ==> distinct_exts(final(exts)@),
        ext_set(final(exts)@) == ext_set(old(exts)@).union(default_remove_set()),
{
    // web development
    insert_ext(exts, "html".to_owned());
    insert_ext(exts, "css".to_owned());
    insert_ext(exts, "svg".to_owned());
    // programming languages
    insert_ext(exts, "js".to_owned());
    insert_ext(exts, "ts".to_owned());
    // documents
    insert_ext(exts, "md".to_owned());
    // data
    insert_ext(exts, "json".to_owned());
    insert_ext(exts, "toml".to_owned());
    insert_ext(exts, "yaml".to_owned());
    insert_ext(exts, "csv".to_owned());
    insert_ext(exts, "xml".to_owned());
    // configuration
    insert_ext(exts, "ini".to_owned());
    insert_ext(exts, "conf".to_owned());
    insert_ext(exts, "cfg".to_owned());
    // scripts
    insert_ext(exts, "sh".to_owned());
    insert_ext(exts, "bat".to_owned());
    insert_ext(exts, "ps1".to_owned());
    assert(ext_set(exts@) =~= ext_set(old(exts)@).union(default_remove_set()));
}

impl FixRule {
    /// Plain add mode: the add overrides are refused; the remove overrides and
    /// the default set join the remove set.
    pub fn set_fix_rule_for_add(&mut self, argument: &Args) -> (r: Result<(), ResolveError>)
        ensures
            old(self).lists_distinct() ==> final(self).lists_distinct(),
            argument.add_bom.is_some() ==> r == Err::<(), ResolveError>(
                ResolveError::AddOverrideInAddMode,
            ) && *final(self) == *old(self),
            argument.add_bom.is_none() ==> r is Ok && final(self).mode == FixMode::Add
                && final(self).add == old(self).add && final(self).remove_set() == old(
                self,
            ).remove_set().union(overrides(argument.remove_bom)).union(default_remove_set()),
    {
        if argument.add_bom.is_some() {
            return Err(ResolveError::AddOverrideInAddMode);
        }
        if let Some(remove_bom) = &argument.remove_bom {
            insert_lowered(&mut self.remove, remove_bom);
        }
        insert_defaults(&mut self.remove);
        self.mode = FixMode::Add;
        Ok(())
    }

    /// Remove mode: the remove overrides are refused; the add overrides join
    /// the add set.
    pub fn set_fix_rule_for_remove(&mut self, argument: &Args) -> (r: Result<(), ResolveError>)
        ensures
            old(self).lists_distinct() ==> final(self).lists_distinct(),
            argument.remove_bom.is_some() ==> r == Err::<(), ResolveError>(
                ResolveError::RemoveOverrideInRemoveMode,
            ) && *final(self) == *old(self),
            argument.remove_bom.is_none() ==> r is Ok && final(self).mode == FixMode::Remove
                && final(self).remove == old(self).remove && final(self).add_set() == old(
                self,
            ).add_set().union(overrides(argument.add_bom)),
    {
        if argument.remove_bom.is_some() {
            return Err(ResolveError::RemoveOverrideInRemoveMode);
        }
        if let Some(add_bom) = &argument.add_bom {
            insert_lowered(&mut self.add, add_bom);
        }
        self.mode = FixMode::Remove;
        Ok(())
    }

    /// Strict add mode: as plain add mode, but no default set is added.
    pub fn set_fix_rule_for_add_strict(&mut self, argument: &Args) -> (r: Result<(), ResolveError>)
        ensures
            old(self).lists_distinct() ==> final(self).lists_distinct(),
            argument.add_bom.is_some() ==> r == Err::<(), ResolveError>(
                ResolveError::AddOverrideInAddStrictMode,
            ) && *final(self) == *old(self),
            argument.add_bom.is_none() ==> r is Ok && final(self).mode == FixMode::Add
                && final(self).add == old(self).add && final(self).remove_set() == old(
                self,
            ).remove_set().union(overrides(argument.remove_bom)),
    {
        if argument.add_bom.is_some() {
            return Err(ResolveError::AddOverrideInAddStrictMode);
        }
        if let Some(remove_bom) = &argument.remove_bom {
            insert_lowered(&mut self.remove, remove_bom);
        }
        self.mode = FixMode::Add;
        Ok(())
    }

    /// A rule with the given mode and the lower-cased extensions of the two
    /// lists; refused when an extension would be both added and removed.
    pub fn new(mode: FixMode, add: &Vec<String>, remove: &Vec<String>) -> (r: Result<
        FixRule,
        ResolveError,
    >)
        ensures
            match r {
                Ok(rule) => lowered_set(add@).disjoint(lowered_set(remove@)) && rule.wf()
                    && rule.mode == mode && rule.add_set() == lowered_set(add@)
                    && rule.remove_set() == lowered_set(remove@),
                Err(e) => !lowered_set(add@).disjoint(lowered_set(remove@)) && e
                    == ResolveError::OverlappingOverrides,
            },
    {
        let mut rule = FixRule { mode, add: Vec::new(), remove: Vec::new() };
        insert_lowered(&mut rule.add, add);
        insert_lowered(&mut rule.remove, remove);
        assert(ext_set(Seq::<String>::empty()) =~= Set::empty());
        assert(rule.add_set() =~= lowered_set(add@));
        assert(rule.remove_set() =~= lowered_set(remove@));
        let mut i: usize = 0;
        while i < rule.add.len()
            invariant
                i <= rule.add.len(),
                rule.lists_distinct(),
                rule.mode == mode,
                rule.add_set() == lowered_set(add@),
                rule.remove_set() == lowered_set(remove@),
                forall|j: int| 0 <= j < i ==> !rule.remove_set().contains(#[trigger] rule.add@[j]@),
            decreases rule.add.len() - i,
        {
            if contains_ext(&rule.remove, &rule.add[i]) {
                assert(rule.add_set().contains(rule.add@[i as int]@));
                return Err(ResolveError::OverlappingOverrides);
            }
            i += 1;
        }
        Ok(rule)
    }

    /// The decision for a file whose lower-cased extension is `ext`.
    pub fn decide(&self, ext: &String) -> (d: FileDecision)
        ensures
            d == self.decision(ext@),
    {
        if contains_ext(&self.remove, ext) {
            FileDecision::RemoveBom
        } else if contains_ext(&self.add, ext) {
            FileDecision::AddBom
        } else {
            match self.mode {
                FixMode::Add => FileDecision::AddBom,
                FixMode::Remove => FileDecision::RemoveBom,
            }
        }
    }
}

/// The mode that the flags request; more than one flag is an error, none
/// requests removal.
pub fn get_fix_mode(fix_option: &Args) -> (r: Result<FixModeArgs, ResolveError>)
    ensures
        match requested_mode(*fix_option) {
            Some(m) => r == Ok::<FixModeArgs, ResolveError>(m),
            None => r == Err::<FixModeArgs, ResolveError>(ResolveError::MultipleModes),
        },
{
    let mut count: u8 = 0;
    if fix_option.add {
        count += 1;
    }
    if fix_option.remove {
        count += 1;
    }
    if fix_option.add_strict {
        count += 1;
    }
    if count > 1 {
        Err(ResolveError::MultipleModes)
    } else if fix_option.add {
        Ok(FixModeArgs::Add)
    } else if fix_option.remove {
        Ok(FixModeArgs::Remove)
    } else if fix_option.add_strict {
        Ok(FixModeArgs::AddStrict)
    } else {
        Ok(FixModeArgs::Remove)
    }
}

/// The rule that mode `fix_mode_args` makes of the override lists of `argument`.
pub fn get_fix_rule(argument: &Args, fix_mode_args: &FixModeArgs) -> (r: Result<
    FixRule,
    ResolveError,
>)
    ensures
        match r {
            Ok(rule) => override_error(*argument, *fix_mode_args).is_none() && resolves_to(
                *argument,
                *fix_mode_args,
                rule,
            ),
            Err(e) => override_error(*argument, *fix_mode_args) == Some(e),
        },
{
    let mut fix_rule = FixRule { mode: FixMode::Remove, add: Vec::new(), remove: Vec::new() };
    let ghost empty = fix_rule;
    assert(ext_set(Seq::<String>::empty()) =~= Set::empty());
    let result_set = match fix_mode_args {
        FixModeArgs::Add => fix_rule.set_fix_rule_for_add(argument),
        FixModeArgs::Remove => fix_rule.set_fix_rule_for_remove(argument),
        FixModeArgs::AddStrict => fix_rule.set_fix_rule_for_add_strict(argument),
    };
    match result_set {
        Ok(_) => {
            assert(fix_rule.add_set() =~= resolved_add(*argument, *fix_mode_args));
            assert(fix_rule.remove_set() =~= resolved_remove(*argument, *fix_mode_args));
            Ok(fix_rule)
        },
        Err(err) => Err(err),
    }
}

/// Resolves the caller's flags and override lists into a rule.
pub fn parse_args(argument: &Args) -> (r: Result<FixRule, ResolveError>)
    ensures
        match r {
            Ok(rule) => resolve_error(*argument).is_none() && resolves_to(
                *argument,
                requested_mode(*argument).unwrap(),
                rule,
            ),
            Err(e) => resolve_error(*argument) == Some(e),
        },
{
    match get_fix_mode(argument) {
        Ok(fix_mode_args) => get_fix_rule(argument, &fix_mode_args),
        Err(err) => Err(err),
    }
}

/// Resolves the caller's flags and override lists into a rule, as
/// [`parse_args`] does.
pub fn parse_fix_rule(argument: &Args) -> (r: Result<FixRule, ResolveError>)
    ensures
        match r {
            Ok(rule) => resolve_error(*argument).is_none() && resolves_to(
                *argument,
                requested_mode(*argument).unwrap(),
                rule,
            ),
            Err(e) => resolve_error(*argument) == Some(e),
        },
{
    parse_args(argument)
}

/// Asking for add mode and remove mode together is refused at resolution,
/// whatever else is asked.
pub proof fn lemma_conflicting_modes_refused(a: Args)
    requires
        a.add && a.remove,
    ensures
        resolve_error(a) == Some(ResolveError::MultipleModes),
{
}

/// Every mode forbids one of the two override lists, so giving both is
/// refused at resolution, and no resolved rule forces an extension both ways.
pub proof fn lemma_both_override_lists_refused(a: Args)
    requires
        a.add_bom.is_some(),
        a.remove_bom.is_some(),
    ensures
        resolve_error(a).is_some(),
{
}

} // verus!
