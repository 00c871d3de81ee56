//! Choice of slicer profiles, discovery of materials, and the slicer's
//! command line and outcome.
use vstd::prelude::*;
use vstd::string::*;
use crate::error::OrcaError;
use crate::validate::opt_text;
use crate::text::{chars_of, contains, contains_text, same_ignoring_case, str_eq_ignore_case};

verus! {

/// The three configuration files that one slicing run loads.
#[derive(Debug, Clone)]
pub struct ProfilePaths {
    pub machine: String,
    pub filament: String,
    pub process: String,
}

/// What `str::to_uppercase` makes of `s`.
pub uninterp spec fn upper_of(s: Seq<char>) -> Seq<char>;

/// Relies on `str::to_uppercase`, whose result depends on the characters
/// alone.
#[verifier::external_body]
fn uppercase(s: &str) -> (r: Vec<char>)
    ensures
        r@ == upper_of(s@),
{
    s.to_uppercase().chars().collect()
}

/// Whether a directory entry called `name` has the extension `ext`: its name
/// ends with a dot and `ext`, and something comes before that dot.
pub open spec fn has_extension(name: Seq<char>, ext: Seq<char>) -> bool {
    name.len() > ext.len() + 1 && name[name.len() - ext.len() - 1] == '.' && name.subrange(
        name.len() - ext.len(),
        name.len() as int,
    ) == ext
}

/// Whether the entry name `name` has the extension `ext`.
pub fn name_has_extension(name: &str, ext: &str) -> (r: bool)
    ensures
        r == has_extension(name@, ext@),
{
    let n = name.unicode_len();
    let e = ext.unicode_len();
    if e >= n || n - e <= 1 || name.get_char(n - e - 1) != '.' {
        return false;
    }
    let mut i: usize = 0;
    while i < e
        invariant
            n == name@.len(),
            e == ext@.len(),
            n > e + 1,
            i <= e,
            forall|t: int| 0 <= t < i ==> #[trigger] name@[n - e + t] == ext@[t],
        decreases e - i,
    {
        if name.get_char(n - e + i) != ext.get_char(i) {
            assert(name@.subrange(n - e, n as int)[i as int] != ext@[i as int]);
            return false;
        }
        i += 1;
    }
    assert forall|t: int| 0 <= t < e implies name@.subrange(n - e, n as int)[t] == ext@[t] by {
        assert(name@[n - e + t] == ext@[t]);
    }
    assert(name@.subrange(n - e, n as int) =~= ext@);
    true
}

/// The curated filament files of a material, tried before any other; the
/// material's case does not matter.
pub open spec fn override_names(material: Seq<char>) -> Seq<Seq<char>> {
    if same_ignoring_case(material, "pla"@) {
        seq!["ALT TABL MATTE PLA PEI.json"@]
    } else if same_ignoring_case(material, "petg"@) {
        seq!["Alt Tab PETG.json"@]
    } else if same_ignoring_case(material, "asa"@) {
        seq!["fusrock ASA.json"@]
    } else {
        seq![]
    }
}

/// The texts of `names`.
pub open spec fn texts(names: Seq<&str>) -> Seq<Seq<char>> {
    names.map_values(|n: &str| n@)
}

/// The curated filament files of a material.
pub fn filament_overrides(material: &str) -> (r: Vec<&'static str>)
    ensures
        texts(r@) == override_names(material@),
{
    let mut r: Vec<&'static str> = Vec::new();
    if str_eq_ignore_case(material, "pla") {
        r.push("ALT TABL MATTE PLA PEI.json");
    } else if str_eq_ignore_case(material, "petg") {
        r.push("Alt Tab PETG.json");
    } else if str_eq_ignore_case(material, "asa") {
        r.push("fusrock ASA.json");
    }
    assert(texts(r@) =~= override_names(material@));
    r
}

/// Whether the directory listing `entries` holds `name`.
pub open spec fn lists(entries: Seq<String>, name: Seq<char>) -> bool {
    exists|i: int| 0 <= i < entries.len() && #[trigger] entries[i]@ == name
}

/// The first of `names`, from position `k` on, that the listing holds.
pub open spec fn first_listed(names: Seq<Seq<char>>, entries: Seq<String>, k: int) -> Option<
    Seq<char>,
>
    decreases names.len() - k,
{
    if k < 0 || k >= names.len() {
        None
    } else if lists(entries, names[k]) {
        Some(names[k])
    } else {
        first_listed(names, entries, k + 1)
    }
}

/// Whether the entry `name` is a JSON profile whose upper-cased name holds
/// the upper-cased material.
pub open spec fn matches_material(name: Seq<char>, material: Seq<char>) -> bool {
    has_extension(name, "json"@) && contains(upper_of(name), upper_of(material))
}

/// The first entry, from position `k` on, that matches the material.
pub open spec fn first_match(entries: Seq<String>, material: Seq<char>, k: int) -> Option<int>
    decreases entries.len() - k,
{
    if k < 0 || k >= entries.len() {
        None
    } else if matches_material(entries[k]@, material) {
        Some(k)
    } else {
        first_match(entries, material, k + 1)
    }
}

/// The filament profile for a material, given the names in the filament
/// directory in listing order: a curated file that is there, else the first
/// JSON profile whose name holds the material.
pub open spec fn chosen_filament(material: Seq<char>, entries: Seq<String>) -> Option<Seq<char>> {
    match first_listed(override_names(material), entries, 0) {
        Some(n) => Some(n),
        None => match first_match(entries, material, 0) {
            Some(k) => Some(entries[k]@),
            None => None,
        },
    }
}

/// Whether `s` and `p` are the same text.
fn same_text(s: &str, p: &str) -> (r: bool)
    ensures
        r == (s@ == p@),
{
    let n = s.unicode_len();
    if n != p.unicode_len() {
        return false;
    }
    let mut i: usize = 0;
    while i < n
        invariant
            n == s@.len(),
            n == p@.len(),
            i <= n,
            forall|t: int| 0 <= t < i ==> #[trigger] s@[t] == p@[t],
        decreases n - i,
    {
        if s.get_char(i) != p.get_char(i) {
            return false;
        }
        i += 1;
    }
    assert(s@ =~= p@);
    true
}

/// The filament profile for `material` among the entries of the filament
/// directory, in listing order; see [`chosen_filament`].
pub fn choose_filament(material: &str, entries: &Vec<String>) -> (r: Option<String>)
    ensures
        opt_text(r) == chosen_filament(material@, entries@),
{
    let names = filament_overrides(material);
    let ghost wanted = override_names(material@);
    let mut k: usize = 0;
    while k < names.len()
        invariant
            texts(names@) == wanted,
            wanted == override_names(material@),
            k <= names.len(),
            first_listed(wanted, entries@, 0) == first_listed(wanted, entries@, k as int),
        decreases names.len() - k,
    {
        assert(wanted[k as int] == names@[k as int]@);
        let mut i: usize = 0;
        while i < entries.len()
            invariant
                i <= entries.len(),
                k < names.len(),
                texts(names@) == wanted,
                wanted == override_names(material@),
                wanted[k as int] == names@[k as int]@,
                first_listed(wanted, entries@, 0) == first_listed(wanted, entries@, k as int),
                forall|t: int| 0 <= t < i ==> #[trigger] entries@[t]@ != names@[k as int]@,
            decreases entries.len() - i,
        {
            if same_text(entries[i].as_str(), names[k]) {
                assert(entries@[i as int]@ == wanted[k as int]);
                assert(lists(entries@, wanted[k as int]));
                return Some(String::from_str(names[k]));
            }
            i += 1;
        }
        assert(!lists(entries@, wanted[k as int]));
        k += 1;
    }
    assert(first_listed(wanted, entries@, 0) is None);
    let want = uppercase(material);
    let mut i: usize = 0;
    while i < entries.len()
        invariant
            i <= entries.len(),
            want@ == upper_of(material@),
            wanted == override_names(material@),
            first_listed(wanted, entries@, 0) is None,
            first_match(entries@, material@, 0) == first_match(entries@, material@, i as int),
        decreases entries.len() - i,
    {
        let name = entries[i].as_str();
        if name_has_extension(name, "json") {
            let upper = uppercase(name);
            if contains_text(&upper, &want) {
                return Some(entries[i].clone());
            }
        }
        i += 1;
    }
    None
}

/// `e` is a missing-profile error with message `msg`.
pub open spec fn is_profile_error(e: OrcaError, msg: Seq<char>) -> bool {
    e is ProfileNotFound && e->ProfileNotFound_msg@ == msg
}

fn profile_error(lead: &str, name: &str) -> (e: OrcaError)
    ensures
        is_profile_error(e, lead@ + name@),
{
    OrcaError::ProfileNotFound { msg: String::from_str(lead).concat(name) }
}

/// Resolves the profiles of one request: the machine profile and the process
/// profile must exist, and a filament profile must be found among the entries
/// of the filament directory (see [`chosen_filament`]). Gives the name of that
/// filament file, or the first missing item.
pub fn resolve_profiles(
    material: &str,
    machine_profile: &str,
    process_profile: &str,
    machine_exists: bool,
    process_exists: bool,
    filament_entries: &Vec<String>,
) -> (r: Result<String, OrcaError>)
    ensures
        !machine_exists ==> r is Err && is_profile_error(
            r->Err_0,
            "Machine profile not found: "@ + machine_profile@,
        ),
        machine_exists && !process_exists ==> r is Err && is_profile_error(
            r->Err_0,
            "Process profile not found: "@ + process_profile@,
        ),
        machine_exists && process_exists ==> match chosen_filament(material@, filament_entries@) {
            Some(n) => r is Ok && r->Ok_0@ == n,
            None => r is Err && is_profile_error(
                r->Err_0,
                "No profile found for material: "@ + material@,
            ),
        },
{
    if !machine_exists {
        return Err(profile_error("Machine profile not found: ", machine_profile));
    }
    if !process_exists {
        return Err(profile_error("Process profile not found: ", process_profile));
    }
    match choose_filament(material, filament_entries) {
        Some(n) => Ok(n),
        None => Err(profile_error("No profile found for material: ", material)),
    }
}

/// The materials that discovery knows, in the order in which a file name is
/// tested for them.
pub open spec fn known_materials() -> Seq<Seq<char>> {
    seq!["PLA"@, "PETG"@, "ASA"@, "ABS"@, "TPU"@, "PCTG"@]
}

/// The first known material, from position `k` on, that the upper-cased
/// name `u` holds.
pub open spec fn first_material(u: Seq<char>, k: int) -> Option<int>
    decreases known_materials().len() - k,
{
    if k < 0 || k >= known_materials().len() {
        None
    } else if contains(u, known_materials()[k]) {
        Some(k)
    } else {
        first_material(u, k + 1)
    }
}

/// The known material that the entry `name` stands for: a JSON profile whose
/// upper-cased stem holds it (the first in the testing order).
pub open spec fn material_of_entry(name: Seq<char>) -> Option<int> {
    if has_extension(name, "json"@) {
        first_material(upper_of(name.subrange(0, name.len() - 5)), 0)
    } else {
        None
    }
}

/// Whether some entry stands for the known material `k`.
pub open spec fn discovered(entries: Seq<String>, k: int) -> bool {
    exists|i: int| 0 <= i < entries.len() && material_of_entry(#[trigger] entries[i]@) == Some(k)
}

/// The materials that the entries stand for, in ascending order.
pub open spec fn discovered_materials(entries: Seq<String>) -> Seq<Seq<char>> {
    let a = if discovered(entries, 3) { seq!["ABS"@] } else { seq![] };
    let b = if discovered(entries, 2) { a.push("ASA"@) } else { a };
    let c = if discovered(entries, 5) { b.push("PCTG"@) } else { b };
    let d = if discovered(entries, 1) { c.push("PETG"@) } else { c };
    let e = if discovered(entries, 0) { d.push("PLA"@) } else { d };
    if discovered(entries, 4) { e.push("TPU"@) } else { e }
}

/// The texts of `v`.
pub open spec fn string_texts(v: Seq<String>) -> Seq<Seq<char>> {
    v.map_values(|s: String| s@)
}

/// The first known material, in testing order, that the upper-cased name
/// `u` holds.
pub fn known_material_in(u: &Vec<char>) -> (r: Option<usize>)
    ensures
        match r {
            Some(k) => first_material(u@, 0) == Some(k as int) && k < 6,
            None => first_material(u@, 0) is None,
        },
{
    let tokens: [&str; 6] = ["PLA", "PETG", "ASA", "ABS", "TPU", "PCTG"];
    let mut k: usize = 0;
    while k < 6
        invariant
            first_material(u@, 0) == first_material(u@, k as int),
            tokens@.map_values(|t: &str| t@) == known_materials(),
        decreases 6 - k,
    {
        let t = chars_of(tokens[k]);
        assert(t@ == known_materials()[k as int]);
        if contains_text(u, &t) {
            return Some(k);
        }
        k += 1;
    }
    None
}

/// The known material that the entry `name` stands for, if any.
fn entry_material(name: &str) -> (r: Option<usize>)
    ensures
        match r {
            Some(k) => material_of_entry(name@) == Some(k as int) && k < 6,
            None => material_of_entry(name@) is None,
        },
{
    if !name_has_extension(name, "json") {
        return None;
    }
    proof {
        reveal_strlit("json");
    }
    let n = name.unicode_len();
    let stem = name.substring_char(0, n - 5);
    known_material_in(&uppercase(stem))
}

/// Lists the materials that the filament directory holds profiles for, in
/// ascending order, given the names of its entries; fails when the directory
/// does not exist (`None`).
pub fn discover_available_materials(filament_dir: &str, entries: Option<Vec<String>>) -> (r: Result<
    Vec<String>,
    OrcaError,
>)
    ensures
        entries is None ==> r is Err && is_profile_error(
            r->Err_0,
            "Filament profiles directory not found: "@ + filament_dir@,
        ),
        entries is Some ==> r is Ok && string_texts(r->Ok_0@) == discovered_materials(
            entries->Some_0@,
        ),
{
    let entries = match entries {
        Some(e) => e,
        None => {
            return Err(profile_error("Filament profiles directory not found: ", filament_dir));
        },
    };
    let mut found: Vec<bool> = vec![false, false, false, false, false, false];
    let mut i: usize = 0;
    while i < entries.len()
        invariant
            i <= entries.len(),
            found.len() == 6,
            forall|k: int|
                0 <= k < 6 ==> #[trigger] found@[k] == exists|j: int|
                    0 <= j < i && material_of_entry(#[trigger] entries@[j]@) == Some(k),
        decreases entries.len() - i,
    {
        match entry_material(entries[i].as_str()) {
            Some(k) => {
                found.set(k, true);
            },
            None => {},
        }
        i += 1;
    }
    assert forall|k: int| 0 <= k < 6 implies found@[k] == discovered(entries@, k) by {}
    let mut r: Vec<String> = Vec::new();
    if found[3] {
        r.push(String::from_str("ABS"));
    }
    if found[2] {
        r.push(String::from_str("ASA"));
    }
    if found[5] {
        r.push(String::from_str("PCTG"));
    }
    if found[1] {
        r.push(String::from_str("PETG"));
    }
    if found[0] {
        r.push(String::from_str("PLA"));
    }
    if found[4] {
        r.push(String::from_str("TPU"));
    }
    assert(string_texts(r@) =~= discovered_materials(entries@));
    Ok(r)
}

/// The arguments that the slicer takes to slice every plate of `model` with
/// the given profiles, writing into `out`.
pub open spec fn slicer_arguments(model: Seq<char>, profiles: ProfilePaths, out: Seq<char>) -> Seq<
    Seq<char>,
> {
    seq![
        model,
        "--slice"@,
        "0"@,
        "--load-settings"@,
        profiles.machine@ + ";"@ + profiles.process@,
        "--load-filaments"@,
        profiles.filament@,
        "--export-slicedata"@,
        out,
        "--outputdir"@,
        out,
        "--debug"@,
        "1"@,
    ]
}

/// The slicer's command-line arguments; see [`slicer_arguments`].
pub fn slicer_args(model_path: &str, profiles: &ProfilePaths, output_dir: &str) -> (r: Vec<String>)
    ensures
        string_texts(r@) == slicer_arguments(model_path@, *profiles, output_dir@),
{
    let settings = profiles.machine.clone().concat(";").concat(profiles.process.as_str());
    let mut r: Vec<String> = Vec::new();
    r.push(String::from_str(model_path));
    r.push(String::from_str("--slice"));
    r.push(String::from_str("0"));
    r.push(String::from_str("--load-settings"));
    r.push(settings);
    r.push(String::from_str("--load-filaments"));
    r.push(profiles.filament.clone());
    r.push(String::from_str("--export-slicedata"));
    r.push(String::from_str(output_dir));
    r.push(String::from_str("--outputdir"));
    r.push(String::from_str(output_dir));
    r.push(String::from_str("--debug"));
    r.push(String::from_str("1"));
    assert(string_texts(r@) =~= slicer_arguments(model_path@, *profiles, output_dir@));
    r
}

/// How a slicer process ended, as far as the slicer's user can tell.
#[derive(Debug, Clone)]
pub enum SlicerRun {
    /// The process could not be started.
    NotStarted { reason: String },
    /// The process ran to its end.
    Exited { success: bool, stderr: String },
}

/// The first entry, from position `k` on, with the extension `gcode`.
pub open spec fn first_gcode_from(entries: Seq<String>, k: int) -> Option<int>
    decreases entries.len() - k,
{
    if k < 0 || k >= entries.len() {
        None
    } else if has_extension(entries[k]@, "gcode"@) {
        Some(k)
    } else {
        first_gcode_from(entries, k + 1)
    }
}

/// The position of the first G-code file among the entries of a directory.
pub fn first_gcode(entries: &Vec<String>) -> (r: Option<usize>)
    ensures
        match r {
            Some(i) => first_gcode_from(entries@, 0) == Some(i as int) && i < entries.len(),
            None => first_gcode_from(entries@, 0) is None,
        },
{
    let mut i: usize = 0;
    while i < entries.len()
        invariant
            i <= entries.len(),
            first_gcode_from(entries@, 0) == first_gcode_from(entries@, i as int),
        decreases entries.len() - i,
    {
        if name_has_extension(entries[i].as_str(), "gcode") {
            return Some(i);
        }
        i += 1;
    }
    None
}

/// `e` is a slicer failure with message `msg`.
pub open spec fn is_slicer_error(e: OrcaError, msg: Seq<char>) -> bool {
    e is SlicerFailed && e->SlicerFailed_msg@ == msg
}

/// Judges a slicer run: it must have started and succeeded, and its output
/// directory, whose entries are `outputs`, must hold a G-code file. Gives the
/// name of the first one.
pub fn slicer_outcome(run: &SlicerRun, outputs: &Vec<String>) -> (r: Result<String, OrcaError>)
    ensures
        run is NotStarted ==> r is Err && is_slicer_error(
            r->Err_0,
            "Failed to execute slicer: "@ + run->reason@,
        ),
        run is Exited && !run->success ==> r is Err && is_slicer_error(
            r->Err_0,
            "Slicer failed with error: "@ + run->stderr@,
        ),
        run is Exited && run->success ==> match first_gcode_from(outputs@, 0) {
            Some(i) => r is Ok && r->Ok_0@ == outputs@[i]@,
            None => r is Err && is_slicer_error(r->Err_0, "No G-code file found after slicing"@),
        },
{
    match run {
        SlicerRun::NotStarted { reason } => Err(
            OrcaError::SlicerFailed {
                msg: String::from_str("Failed to execute slicer: ").concat(reason.as_str()),
            },
        ),
        SlicerRun::Exited { success, stderr } => {
            if !*success {
                Err(
                    OrcaError::SlicerFailed {
                        msg: String::from_str("Slicer failed with error: ").concat(stderr.as_str()),
                    },
                )
            } else {
                match first_gcode(outputs) {
                    Some(i) => Ok(outputs[i].clone()),
                    None => Err(
                        OrcaError::SlicerFailed {
                            msg: String::from_str("No G-code file found after slicing"),
                        },
                    ),
                }
            }
        },
    }
}

} // verus!
