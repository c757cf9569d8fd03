use vstd::prelude::*;
use crate::text::joined;

verus! {

/// The executable's name that browsers are registered under.
pub const CANONICAL_NAME: &'static str = "osu-directer.exe";

/// The programmatic identifier of the link handler.
pub const PROGID: &'static str = "osu-directer";

/// The name shown to the user.
pub const DISPLAY_NAME: &'static str = "osu!directer";

/// The description shown to the user.
pub const DESCRIPTION: &'static str = "fake osu direct";

/// The "Default Programs" entry: browsers are registered under
/// `StartMenuInternet`, keyed by their executable's name.
pub const DPROG_PATH: &'static str = "SOFTWARE\\Clients\\StartMenuInternet\\osu-directer.exe";

/// Where executables are registered so that they can be found by name.
pub const APPREG_BASE: &'static str = "SOFTWARE\\Microsoft\\Windows\\CurrentVersion\\App Paths\\";

/// The class of the link handler.
pub const PROGID_PATH: &'static str = "SOFTWARE\\Classes\\osu-directer";

/// The registered applications list.
pub const REGISTERED_APPLICATIONS: &'static str = "SOFTWARE\\RegisteredApplications";

/// The paths above are made of the names above.
pub proof fn lemma_paths_are_composed()
    ensures
        DPROG_PATH@ == "SOFTWARE\\Clients\\StartMenuInternet\\"@ + CANONICAL_NAME@,
        PROGID_PATH@ == "SOFTWARE\\Classes\\"@ + PROGID@,
{
    reveal_strlit("SOFTWARE\\Clients\\StartMenuInternet\\osu-directer.exe");
    reveal_strlit("SOFTWARE\\Clients\\StartMenuInternet\\");
    reveal_strlit("osu-directer.exe");
    reveal_strlit("SOFTWARE\\Classes\\osu-directer");
    reveal_strlit("SOFTWARE\\Classes\\");
    reveal_strlit("osu-directer");
    assert(DPROG_PATH@ =~= "SOFTWARE\\Clients\\StartMenuInternet\\"@ + CANONICAL_NAME@);
    assert(PROGID_PATH@ =~= "SOFTWARE\\Classes\\"@ + PROGID@);
}

/// A root of the registry.
#[derive(Debug, Clone, Copy, PartialEq, Eq, Structural)]
pub enum RegistryRoot {
    CurrentUser,
    LocalMachine,
}

/// The next move in looking for where an executable is registered.
#[derive(Debug, Clone, Copy, PartialEq, Eq, Structural)]
pub enum LookupStep {
    /// Look under this root.
    Look(RegistryRoot),
    /// The last root looked under had it.
    Found,
    /// No root had it.
    NotFound,
}

/// The root looked under first: the current user's.
pub fn first_lookup_root() -> (root: RegistryRoot)
    ensures
        root == RegistryRoot::CurrentUser,
{
    RegistryRoot::CurrentUser
}

/// The move after looking under `looked`: stop where it was found; otherwise
/// go on from the current user's root to the machine's, and give up after that.
pub open spec fn spec_lookup_after(looked: RegistryRoot, found: bool) -> LookupStep {
    if found {
        LookupStep::Found
    } else {
        match looked {
            RegistryRoot::CurrentUser => LookupStep::Look(RegistryRoot::LocalMachine),
            RegistryRoot::LocalMachine => LookupStep::NotFound,
        }
    }
}

/// The move after looking under `looked`, given whether it was found there.
pub fn lookup_after(looked: RegistryRoot, found: bool) -> (step: LookupStep)
    ensures
        step == spec_lookup_after(looked, found),
{
    if found {
        LookupStep::Found
    } else {
        match looked {
            RegistryRoot::CurrentUser => LookupStep::Look(RegistryRoot::LocalMachine),
            RegistryRoot::LocalMachine => LookupStep::NotFound,
        }
    }
}

/// Whatever each root holds, a lookup looks under at most two roots, the
/// current user's first, and finds the executable exactly when one of them
/// has it; the machine's root is looked under only where the user's lacks it.
pub proof fn lemma_lookup_tries_user_then_machine(in_user: bool, in_machine: bool)
    ensures
        ({
            let s1 = spec_lookup_after(RegistryRoot::CurrentUser, in_user);
            let end = match s1 {
                LookupStep::Look(r) => spec_lookup_after(r, in_machine),
                other => other,
            };
            &&& (s1 is Look <==> !in_user)
            &&& (s1 matches LookupStep::Look(r) ==> r == RegistryRoot::LocalMachine)
            &&& end !is Look
            &&& (end == LookupStep::Found <==> in_user || in_machine)
        }),
{
}

/// The key, under either root, that says where the executable `exe_name` is.
pub fn app_paths_key(exe_name: &str) -> (key: String)
    ensures
        key@ == APPREG_BASE@ + exe_name@,
{
    joined(APPREG_BASE, exe_name)
}

/// The install information of the "Default Programs" entry, where the
/// registration keeps `IconsVisible` and the install commands.
pub fn install_info_key() -> (key: String)
    ensures
        key@ == dprog_key("\\InstallInfo"@),
{
    joined(DPROG_PATH, "\\InstallInfo")
}

/// A value stored in the registry.
#[derive(Debug, Clone, PartialEq, Eq)]
pub enum RegistryData {
    Text(String),
    Number(u32),
}

/// A registry value taken by its characters.
pub enum DataView {
    Text(Seq<char>),
    Number(u32),
}

impl View for RegistryData {
    type V = DataView;

    open spec fn view(&self) -> DataView {
        match self {
            RegistryData::Text(t) => DataView::Text(t@),
            RegistryData::Number(n) => DataView::Number(*n),
        }
    }
}

/// Setting the value `name` of `key` (created if missing, under the current
/// user's root) to `data`; the empty name is the key's default value.
#[derive(Debug, Clone, PartialEq, Eq)]
pub struct RegistryWrite {
    pub key: String,
    pub name: String,
    pub data: RegistryData,
}

/// A registry write taken by its characters.
pub struct WriteView {
    pub key: Seq<char>,
    pub name: Seq<char>,
    pub data: DataView,
}

impl View for RegistryWrite {
    type V = WriteView;

    open spec fn view(&self) -> WriteView {
        WriteView { key: self.key@, name: self.name@, data: self.data@ }
    }
}

/// Writing the text `value` to `name` under `key`.
pub open spec fn text_write(key: Seq<char>, name: Seq<char>, value: Seq<char>) -> WriteView {
    WriteView { key, name, data: DataView::Text(value) }
}

/// Writing the number `value` to `name` under `key`.
pub open spec fn number_write(key: Seq<char>, name: Seq<char>, value: u32) -> WriteView {
    WriteView { key, name, data: DataView::Number(value) }
}

/// The writes, each taken by its characters.
pub open spec fn writes_view(writes: Seq<RegistryWrite>) -> Seq<WriteView> {
    writes.map_values(|w: RegistryWrite| w@)
}

/// The executable's path between double quotes.
pub open spec fn spec_quoted(exe_path: Seq<char>) -> Seq<char> {
    "\""@ + exe_path + "\""@
}

/// The icon of the program: the first icon in its executable.
pub open spec fn spec_icon_path(exe_path: Seq<char>) -> Seq<char> {
    spec_quoted(exe_path) + ",0"@
}

/// The command that opens a link (`%1`) with the program, passing `flag` on.
pub open spec fn spec_open_command(exe_path: Seq<char>, flag: Option<Seq<char>>) -> Seq<char> {
    match flag {
        Some(f) => spec_quoted(exe_path) + " "@ + f + " \"%1\""@,
        None => spec_quoted(exe_path) + " \"%1\""@,
    }
}

/// The "Default Programs" entry's subkey `suffix`.
pub open spec fn dprog_key(suffix: Seq<char>) -> Seq<char> {
    DPROG_PATH@ + suffix
}

/// The handler class's subkey `suffix`.
pub open spec fn progid_key(suffix: Seq<char>) -> Seq<char> {
    PROGID_PATH@ + suffix
}

/// Everything that registering the program as a browser writes, in order:
/// the handler class with its icon and open command, the "Default Programs"
/// entry with its capabilities, icon, install commands and open command, the
/// entry in the registered applications list, and the executable's location.
/// `IconsVisible` is written only where it is not set yet.
pub open spec fn spec_registration(
    exe_path: Seq<char>,
    exe_name: Seq<char>,
    flag: Option<Seq<char>>,
    icons_visible_set: bool,
) -> Seq<WriteView> {
    registration_head(exe_path, flag) + (if icons_visible_set {
        Seq::empty()
    } else {
        seq![icons_visible_write()]
    }) + registration_tail(exe_path, exe_name, flag)
}

/// Marking the icons visible in the install information.
pub open spec fn icons_visible_write() -> WriteView {
    number_write(dprog_key("\\InstallInfo"@), "IconsVisible"@, 1)
}

/// The writes of a registration before `IconsVisible`: the handler class with
/// its icon and open command, and the "Default Programs" entry with its
/// capabilities, icon and install commands.
pub open spec fn registration_head(exe_path: Seq<char>, flag: Option<Seq<char>>) -> Seq<WriteView> {
    let none = Seq::<char>::empty();
    let icon = spec_icon_path(exe_path);
    let command = spec_open_command(exe_path, flag);
    let caps = dprog_key("\\Capabilities"@);
    let install = dprog_key("\\InstallInfo"@);
    seq![
        text_write(PROGID_PATH@, none, DISPLAY_NAME@),
        text_write(progid_key("\\DefaultIcon"@), none, icon),
        text_write(progid_key("\\shell\\open\\command"@), none, command),
        text_write(DPROG_PATH@, none, DISPLAY_NAME@),
        text_write(DPROG_PATH@, "LocalizedString"@, DISPLAY_NAME@),
        text_write(caps, "ApplicationName"@, DISPLAY_NAME@),
        text_write(caps, "ApplicationIcon"@, icon),
        text_write(caps, "ApplicationDescription"@, DESCRIPTION@),
        text_write(dprog_key("\\Capabilities\\Startmenu"@), "StartMenuInternet"@, CANONICAL_NAME@),
        text_write(dprog_key("\\Capabilities\\URLAssociations"@), "http"@, PROGID@),
        text_write(dprog_key("\\Capabilities\\URLAssociations"@), "https"@, PROGID@),
        text_write(dprog_key("\\DefaultIcon"@), none, icon),
        text_write(install, "ReinstallCommand"@, spec_quoted(exe_path) + " register"@),
        text_write(install, "HideIconsCommand"@, spec_quoted(exe_path) + " hide-icons"@),
        text_write(install, "ShowIconsCommand"@, spec_quoted(exe_path) + " show-icons"@),
    ]
}

/// The writes of a registration after `IconsVisible`: the entry's open
/// command, its place in the registered applications list, and the
/// executable's location.
pub open spec fn registration_tail(exe_path: Seq<char>, exe_name: Seq<char>, flag: Option<Seq<char>>) -> Seq<WriteView> {
    let none = Seq::<char>::empty();
    let appreg = APPREG_BASE@ + exe_name;
    seq![
        text_write(dprog_key("\\shell\\open\\command"@), none, spec_open_command(exe_path, flag)),
        text_write(REGISTERED_APPLICATIONS@, DISPLAY_NAME@, dprog_key("\\Capabilities"@)),
        text_write(appreg, none, exe_path),
        number_write(appreg, "UseUrl"@, 1),
    ]
}

/// Writing the text `value` to `name` under `key`.
fn text(key: &String, name: &str, value: &String) -> (w: RegistryWrite)
    ensures
        w@ == text_write(key@, name@, value@),
{
    RegistryWrite {
        key: key.clone(),
        name: String::from_str(name),
        data: RegistryData::Text(value.clone()),
    }
}

/// Writing the number `value` to `name` under `key`.
fn number(key: &String, name: &str, value: u32) -> (w: RegistryWrite)
    ensures
        w@ == number_write(key@, name@, value),
{
    RegistryWrite { key: key.clone(), name: String::from_str(name), data: RegistryData::Number(value) }
}

/// The executable's path between double quotes.
pub fn quoted(exe_path: &str) -> (q: String)
    ensures
        q@ == spec_quoted(exe_path@),
{
    let mut q = joined("\"", exe_path);
    q.append("\"");
    q
}

/// The icon of the program, as the registry names it.
pub fn icon_path(exe_path: &str) -> (icon: String)
    ensures
        icon@ == spec_icon_path(exe_path@),
{
    let mut icon = quoted(exe_path);
    icon.append(",0");
    icon
}

/// The command that opens a link with the program.
pub fn open_command(exe_path: &str, flag: Option<&str>) -> (command: String)
    ensures
        command@ == spec_open_command(
            exe_path@,
            match flag {
                Some(f) => Some(f@),
                None => None,
            },
        ),
{
    let mut command = quoted(exe_path);
    match flag {
        Some(f) => {
            command.append(" ");
            command.append(f);
            command.append(" \"%1\"");
        },
        None => {
            command.append(" \"%1\"");
        },
    }
    command
}

/// Everything that registering the program as a browser writes, in order,
/// for the executable at `exe_path` named `exe_name`, with the flag that
/// registered launches pass on; `icons_visible_set` says whether the
/// `IconsVisible` value of the install information exists already.
pub fn registration_writes(
    exe_path: &str,
    exe_name: &str,
    flag: Option<&str>,
    icons_visible_set: bool,
) -> (writes: Vec<RegistryWrite>)
    ensures
        writes_view(writes@) == spec_registration(
            exe_path@,
            exe_name@,
            match flag {
                Some(f) => Some(f@),
                None => None,
            },
            icons_visible_set,
        ),
{
    let none = "";
    let display = String::from_str(DISPLAY_NAME);
    let icon = icon_path(exe_path);
    let command = open_command(exe_path, flag);
    let q = quoted(exe_path);
    let progid = String::from_str(PROGID_PATH);
    let progid_icon = joined(PROGID_PATH, "\\DefaultIcon");
    let progid_command = joined(PROGID_PATH, "\\shell\\open\\command");
    let dprog = String::from_str(DPROG_PATH);
    let caps = joined(DPROG_PATH, "\\Capabilities");
    let startmenu = joined(DPROG_PATH, "\\Capabilities\\Startmenu");
    let associations = joined(DPROG_PATH, "\\Capabilities\\URLAssociations");
    let dprog_icon = joined(DPROG_PATH, "\\DefaultIcon");
    let install = install_info_key();
    let dprog_command = joined(DPROG_PATH, "\\shell\\open\\command");
    let registered = String::from_str(REGISTERED_APPLICATIONS);
    let appreg = app_paths_key(exe_name);
    let exe = String::from_str(exe_path);
    proof {
        reveal_strlit("");
    }
    assert(none@ =~= Seq::<char>::empty());
    let mut writes: Vec<RegistryWrite> = Vec::new();
    writes.push(RegistryWrite { key: progid, name: String::new(), data: RegistryData::Text(display.clone()) });
    writes.push(RegistryWrite { key: progid_icon, name: String::new(), data: RegistryData::Text(icon.clone()) });
    writes.push(RegistryWrite { key: progid_command, name: String::new(), data: RegistryData::Text(command.clone()) });
    writes.push(text(&dprog, none, &display));
    writes.push(text(&dprog, "LocalizedString", &display));
    writes.push(text(&caps, "ApplicationName", &display));
    writes.push(text(&caps, "ApplicationIcon", &icon));
    writes.push(text(&caps, "ApplicationDescription", &String::from_str(DESCRIPTION)));
    writes.push(text(&startmenu, "StartMenuInternet", &String::from_str(CANONICAL_NAME)));
    writes.push(text(&associations, "http", &String::from_str(PROGID)));
    writes.push(text(&associations, "https", &String::from_str(PROGID)));
    writes.push(text(&dprog_icon, none, &icon));
    writes.push(text(&install, "ReinstallCommand", &joined(q.as_str(), " register")));
    writes.push(text(&install, "HideIconsCommand", &joined(q.as_str(), " hide-icons")));
    writes.push(text(&install, "ShowIconsCommand", &joined(q.as_str(), " show-icons")));
    if !icons_visible_set {
        writes.push(number(&install, "IconsVisible", 1));
    }
    writes.push(text(&dprog_command, none, &command));
    writes.push(text(&registered, DISPLAY_NAME, &caps));
    writes.push(text(&appreg, none, &exe));
    writes.push(number(&appreg, "UseUrl", 1));
    assert(writes_view(writes@) =~= spec_registration(
        exe_path@,
        exe_name@,
        match flag {
            Some(f) => Some(f@),
            None => None,
        },
        icons_visible_set,
    ));
    writes
}

/// Something that removing the registration deletes under the current
/// user's root.
#[derive(Debug, Clone, PartialEq, Eq)]
pub enum RegistryRemoval {
    /// The key with everything below it.
    Tree(String),
    /// The value `name` of the key `key`.
    Value { key: String, name: String },
}

/// A registry removal taken by its characters.
pub enum RemovalView {
    Tree(Seq<char>),
    Value { key: Seq<char>, name: Seq<char> },
}

impl View for RegistryRemoval {
    type V = RemovalView;

    open spec fn view(&self) -> RemovalView {
        match self {
            RegistryRemoval::Tree(key) => RemovalView::Tree(key@),
            RegistryRemoval::Value { key, name } => RemovalView::Value { key: key@, name: name@ },
        }
    }
}

/// The removals, each taken by its characters.
pub open spec fn removals_view(removals: Seq<RegistryRemoval>) -> Seq<RemovalView> {
    removals.map_values(|r: RegistryRemoval| r@)
}

/// Everything that removing the registration deletes, in order, for the
/// executable named `exe_name`: the "Default Programs" entry, the handler
/// class, the program's value in the registered applications list, and the
/// executable's location.
pub open spec fn spec_unregistration(exe_name: Seq<char>) -> Seq<RemovalView> {
    seq![
        RemovalView::Tree(DPROG_PATH@),
        RemovalView::Tree(PROGID_PATH@),
        RemovalView::Value { key: REGISTERED_APPLICATIONS@, name: DISPLAY_NAME@ },
        RemovalView::Tree(APPREG_BASE@ + exe_name),
    ]
}

/// Everything that removing the registration deletes, in order.
pub fn unregistration_removals(exe_name: &str) -> (removals: Vec<RegistryRemoval>)
    ensures
        removals_view(removals@) == spec_unregistration(exe_name@),
{
    let mut removals: Vec<RegistryRemoval> = Vec::new();
    removals.push(RegistryRemoval::Tree(String::from_str(DPROG_PATH)));
    removals.push(RegistryRemoval::Tree(String::from_str(PROGID_PATH)));
    removals.push(
        RegistryRemoval::Value {
            key: String::from_str(REGISTERED_APPLICATIONS),
            name: String::from_str(DISPLAY_NAME),
        },
    );
    removals.push(RegistryRemoval::Tree(app_paths_key(exe_name)));
    assert(removals_view(removals@) =~= spec_unregistration(exe_name@));
    removals
}

/// Marking the program's icons as visible or hidden: the write, and whether
/// its key is created where it is missing (showing creates it; hiding leaves
/// a missing key alone and writes nothing).
#[derive(Debug, Clone, PartialEq, Eq)]
pub struct IconsChange {
    pub write: RegistryWrite,
    pub create_key: bool,
}

/// The change that marks the icons visible (`IconsVisible` = 1) or hidden (0),
/// in the install information that the registration writes.
pub fn icons_visibility(visible: bool) -> (change: IconsChange)
    ensures
        change.write@ == number_write(
            dprog_key("\\InstallInfo"@),
            "IconsVisible"@,
            if visible {
                1
            } else {
                0
            },
        ),
        change.create_key == visible,
{
    let key = install_info_key();
    let value: u32 = if visible {
        1
    } else {
        0
    };
    IconsChange { write: number(&key, "IconsVisible", value), create_key: visible }
}

/// `key` is `root` or lies below it.
pub open spec fn is_under(key: Seq<char>, root: Seq<char>) -> bool {
    ||| key == root
    ||| key.len() > root.len() && key.subrange(0, root.len() as int) == root && key[root.len() as int]
        == '\\'
}

/// A key made of `root` and a suffix that starts with a separator lies below `root`.
proof fn lemma_below(root: Seq<char>, suffix: Seq<char>)
    requires
        suffix.len() > 0,
        suffix[0] == '\\',
    ensures
        is_under(root + suffix, root),
{
    assert((root + suffix).subrange(0, root.len() as int) =~= root);
}

/// Whether one of the removals deletes the value `name` of `key`: the value
/// itself, or a key that holds it.
pub open spec fn removed_by(key: Seq<char>, name: Seq<char>, removals: Seq<RemovalView>) -> bool {
    exists|j: int|
        0 <= j < removals.len() && match #[trigger] removals[j] {
            RemovalView::Tree(root) => is_under(key, root),
            RemovalView::Value { key: k, name: n } => k == key && n == name,
        }
}

/// Removing the registration deletes every value that registering wrote.
pub proof fn lemma_unregistration_covers_registration(
    exe_path: Seq<char>,
    exe_name: Seq<char>,
    flag: Option<Seq<char>>,
    icons_visible_set: bool,
)
    ensures
        forall|i: int|
            0 <= i < spec_registration(exe_path, exe_name, flag, icons_visible_set).len()
                ==> removed_by(
                #[trigger] spec_registration(exe_path, exe_name, flag, icons_visible_set)[i].key,
                spec_registration(exe_path, exe_name, flag, icons_visible_set)[i].name,
                spec_unregistration(exe_name),
            ),
{
    let writes = spec_registration(exe_path, exe_name, flag, icons_visible_set);
    let removals = spec_unregistration(exe_name);
    let dprog = DPROG_PATH@;
    let progid = PROGID_PATH@;
    let appreg = APPREG_BASE@ + exe_name;
    reveal_strlit("\\DefaultIcon");
    reveal_strlit("\\shell\\open\\command");
    reveal_strlit("\\Capabilities");
    reveal_strlit("\\Capabilities\\Startmenu");
    reveal_strlit("\\Capabilities\\URLAssociations");
    reveal_strlit("\\InstallInfo");
    lemma_below(progid, "\\DefaultIcon"@);
    lemma_below(progid, "\\shell\\open\\command"@);
    lemma_below(dprog, "\\Capabilities"@);
    lemma_below(dprog, "\\Capabilities\\Startmenu"@);
    lemma_below(dprog, "\\Capabilities\\URLAssociations"@);
    lemma_below(dprog, "\\DefaultIcon"@);
    lemma_below(dprog, "\\InstallInfo"@);
    lemma_below(dprog, "\\shell\\open\\command"@);
    assert(removals[0] == RemovalView::Tree(dprog));
    assert(removals[1] == RemovalView::Tree(progid));
    assert(removals[2] == RemovalView::Value { key: REGISTERED_APPLICATIONS@, name: DISPLAY_NAME@ });
    assert(removals[3] == RemovalView::Tree(appreg));
    assert forall|i: int| 0 <= i < writes.len() implies removed_by(
        #[trigger] writes[i].key,
        writes[i].name,
        removals,
    ) by {
        let key = writes[i].key;
        if is_under(key, dprog) {
            assert(match removals[0] {
                RemovalView::Tree(root) => is_under(key, root),
                RemovalView::Value { key: k, name: n } => k == key && n == writes[i].name,
            });
        } else if is_under(key, progid) {
            assert(match removals[1] {
                RemovalView::Tree(root) => is_under(key, root),
                RemovalView::Value { key: k, name: n } => k == key && n == writes[i].name,
            });
        } else if is_under(key, appreg) {
            assert(match removals[3] {
                RemovalView::Tree(root) => is_under(key, root),
                RemovalView::Value { key: k, name: n } => k == key && n == writes[i].name,
            });
        } else {
            assert(key == REGISTERED_APPLICATIONS@ && writes[i].name == DISPLAY_NAME@);
            assert(match removals[2] {
                RemovalView::Tree(root) => is_under(key, root),
                RemovalView::Value { key: k, name: n } => k == key && n == writes[i].name,
            });
        }
    }
}

/// A model of the registry under the current user's root: the keys that
/// exist, and the values they hold by key and name.
#[verifier::ext_equal]
pub struct RegistryModel {
    pub keys: Set<Seq<char>>,
    pub values: Map<(Seq<char>, Seq<char>), DataView>,
}

/// The registry after the writes, done in order: each creates its key if
/// missing and sets its value.
pub open spec fn apply_writes(reg: RegistryModel, writes: Seq<WriteView>) -> RegistryModel
    decreases writes.len(),
{
    if writes.len() == 0 {
        reg
    } else {
        let before = apply_writes(reg, writes.drop_last());
        let w = writes.last();
        RegistryModel {
            keys: before.keys.insert(w.key),
            values: before.values.insert((w.key, w.name), w.data),
        }
    }
}

/// Whether the install information holds `IconsVisible` as a number, which is
/// what the registration looks for before it writes that value.
pub open spec fn icons_visible_set(reg: RegistryModel) -> bool {
    &&& reg.values.contains_key(icons_visible_name())
    &&& reg.values[icons_visible_name()] is Number
}

/// Where `IconsVisible` is kept: its key and name.
pub open spec fn icons_visible_name() -> (Seq<char>, Seq<char>) {
    (icons_visible_write().key, icons_visible_write().name)
}

/// The registry after registering the program once.
pub open spec fn registered(
    reg: RegistryModel,
    exe_path: Seq<char>,
    exe_name: Seq<char>,
    flag: Option<Seq<char>>,
) -> RegistryModel {
    apply_writes(reg, spec_registration(exe_path, exe_name, flag, icons_visible_set(reg)))
}

/// The value that a sequence of writes leaves behind for each key and name it
/// touches: the last write to it wins.
pub open spec fn written_values(writes: Seq<WriteView>) -> Map<(Seq<char>, Seq<char>), DataView>
    decreases writes.len(),
{
    if writes.len() == 0 {
        Map::empty()
    } else {
        let w = writes.last();
        written_values(writes.drop_last()).insert((w.key, w.name), w.data)
    }
}

/// The keys that a sequence of writes creates.
pub open spec fn written_keys(writes: Seq<WriteView>) -> Set<Seq<char>>
    decreases writes.len(),
{
    if writes.len() == 0 {
        Set::empty()
    } else {
        written_keys(writes.drop_last()).insert(writes.last().key)
    }
}

/// Writing in order is adding what the writes leave behind to what was there.
proof fn lemma_apply_is_union(reg: RegistryModel, writes: Seq<WriteView>)
    ensures
        apply_writes(reg, writes) == (RegistryModel {
            keys: reg.keys.union(written_keys(writes)),
            values: reg.values.union_prefer_right(written_values(writes)),
        }),
    decreases writes.len(),
{
    if writes.len() > 0 {
        lemma_apply_is_union(reg, writes.drop_last());
        let w = writes.last();
        assert(reg.values.union_prefer_right(written_values(writes.drop_last())).insert(
            (w.key, w.name),
            w.data,
        ) =~= reg.values.union_prefer_right(written_values(writes)));
        assert(reg.keys.union(written_keys(writes.drop_last())).insert(w.key) =~= reg.keys.union(
            written_keys(writes),
        ));
    }
}

/// What two sequences of writes leave behind, one after the other.
proof fn lemma_written_concat(a: Seq<WriteView>, b: Seq<WriteView>)
    ensures
        written_values(a + b) == written_values(a).union_prefer_right(written_values(b)),
        written_keys(a + b) == written_keys(a).union(written_keys(b)),
    decreases b.len(),
{
    if b.len() == 0 {
        assert(a + b =~= a);
        assert(written_values(a).union_prefer_right(written_values(b)) =~= written_values(a));
        assert(written_keys(a).union(written_keys(b)) =~= written_keys(a));
    } else {
        lemma_written_concat(a, b.drop_last());
        assert((a + b).drop_last() =~= a + b.drop_last());
        assert((a + b).last() == b.last());
        let w = b.last();
        assert(written_values(a).union_prefer_right(written_values(b.drop_last())).insert(
            (w.key, w.name),
            w.data,
        ) =~= written_values(a).union_prefer_right(written_values(b)));
        assert(written_keys(a).union(written_keys(b.drop_last())).insert(w.key) =~= written_keys(
            a,
        ).union(written_keys(b)));
    }
}

/// Writes none of which has the name `name` leave no value of that name.
proof fn lemma_name_untouched(writes: Seq<WriteView>, key: Seq<char>, name: Seq<char>)
    requires
        forall|i: int| 0 <= i < writes.len() ==> #[trigger] writes[i].name != name,
    ensures
        !written_values(writes).contains_key((key, name)),
    decreases writes.len(),
{
    if writes.len() > 0 {
        assert(writes.last() == writes[writes.len() - 1]);
        lemma_name_untouched(writes.drop_last(), key, name);
    }
}

/// Only the `IconsVisible` write of a registration has that name.
proof fn lemma_icons_visible_written_once(
    exe_path: Seq<char>,
    exe_name: Seq<char>,
    flag: Option<Seq<char>>,
)
    ensures
        forall|i: int|
            0 <= i < registration_head(exe_path, flag).len() ==> #[trigger] registration_head(
                exe_path,
                flag,
            )[i].name != icons_visible_write().name,
        forall|i: int|
            0 <= i < registration_tail(exe_path, exe_name, flag).len() ==> #[trigger] registration_tail(
                exe_path,
                exe_name,
                flag,
            )[i].name != icons_visible_write().name,
{
    reveal_strlit("IconsVisible");
    reveal_strlit("LocalizedString");
    reveal_strlit("ApplicationName");
    reveal_strlit("ApplicationIcon");
    reveal_strlit("ApplicationDescription");
    reveal_strlit("StartMenuInternet");
    reveal_strlit("http");
    reveal_strlit("https");
    reveal_strlit("ReinstallCommand");
    reveal_strlit("HideIconsCommand");
    reveal_strlit("ShowIconsCommand");
    reveal_strlit("osu!directer");
    reveal_strlit("UseUrl");
    let iv = icons_visible_write().name;
    assert(iv.len() == 12 && iv[0] == 'I');
    assert(DISPLAY_NAME@[0] == 'o');
}

/// Registering the program a second time leaves the registry as the first
/// registration left it: every value it writes is already there, and
/// `IconsVisible`, set by the first, is not written again.
pub proof fn lemma_registering_again_changes_nothing(
    reg: RegistryModel,
    exe_path: Seq<char>,
    exe_name: Seq<char>,
    flag: Option<Seq<char>>,
)
    ensures
        registered(registered(reg, exe_path, exe_name, flag), exe_path, exe_name, flag)
            == registered(reg, exe_path, exe_name, flag),
{
    let head = registration_head(exe_path, flag);
    let tail = registration_tail(exe_path, exe_name, flag);
    let iv = icons_visible_write();
    let ivn = icons_visible_name();
    lemma_icons_visible_written_once(exe_path, exe_name, flag);
    lemma_name_untouched(head, iv.key, iv.name);
    lemma_name_untouched(tail, iv.key, iv.name);
    lemma_written_concat(head, tail);
    let first = spec_registration(exe_path, exe_name, flag, icons_visible_set(reg));
    let r1 = registered(reg, exe_path, exe_name, flag);
    lemma_apply_is_union(reg, first);
    if icons_visible_set(reg) {
        assert(first =~= head + tail);
        assert(r1.values[ivn] == reg.values[ivn]);
        assert(icons_visible_set(r1));
        lemma_apply_is_union(r1, first);
        assert(apply_writes(r1, first) =~= r1);
    } else {
        let middle = seq![iv];
        assert(first =~= head + middle + tail);
        lemma_written_concat(head, middle);
        lemma_written_concat(head + middle, tail);
        assert(written_values(middle) =~= Map::<(Seq<char>, Seq<char>), DataView>::empty().insert(
            ivn,
            iv.data,
        )) by {
            reveal_with_fuel(written_values, 2);
            assert(middle.drop_last() =~= Seq::<WriteView>::empty());
        }
        assert(written_keys(middle) =~= Set::<Seq<char>>::empty().insert(iv.key)) by {
            reveal_with_fuel(written_keys, 2);
            assert(middle.drop_last() =~= Seq::<WriteView>::empty());
        }
        assert(r1.values[ivn] == iv.data);
        assert(icons_visible_set(r1));
        let second = spec_registration(exe_path, exe_name, flag, true);
        assert(second =~= head + tail);
        lemma_apply_is_union(r1, second);
        assert(apply_writes(r1, second).values =~= r1.values);
        assert(apply_writes(r1, second).keys =~= r1.keys);
    }
}

/// The command that opens a link is the executable's path between double
/// quotes, then a space and the flag where there is one, then a space and the
/// link placeholder `"%1"`.
pub proof fn lemma_open_command_passes_the_link(exe_path: Seq<char>, flag: Option<Seq<char>>)
    ensures
        spec_open_command(exe_path, flag) == seq!['"'] + exe_path + seq!['"'] + (match flag {
            Some(f) => seq![' '] + f,
            None => Seq::empty(),
        }) + seq![' ', '"', '%', '1', '"'],
{
    reveal_strlit("\"");
    reveal_strlit(" ");
    reveal_strlit(" \"%1\"");
    match flag {
        Some(f) => {
            assert(spec_open_command(exe_path, flag) =~= seq!['"'] + exe_path + seq!['"'] + (seq![
                ' ',
            ] + f) + seq![' ', '"', '%', '1', '"']);
        },
        None => {
            assert(spec_open_command(exe_path, flag) =~= seq!['"'] + exe_path + seq!['"']
                + Seq::<char>::empty() + seq![' ', '"', '%', '1', '"']);
        },
    }
}

/// Every registration, whatever the flag, writes the command that opens a
/// link as the default value of both the handler class's and the "Default
/// Programs" entry's `shell\open\command` keys.
pub proof fn lemma_registration_writes_open_command(
    exe_path: Seq<char>,
    exe_name: Seq<char>,
    flag: Option<Seq<char>>,
    icons_visible_set: bool,
)
    ensures
        ({
            let writes = spec_registration(exe_path, exe_name, flag, icons_visible_set);
            let command = spec_open_command(exe_path, flag);
            &&& exists|i: int|
                0 <= i < writes.len() && #[trigger] writes[i] == text_write(
                    PROGID_PATH@ + "\\shell\\open\\command"@,
                    Seq::empty(),
                    command,
                )
            &&& exists|i: int|
                0 <= i < writes.len() && #[trigger] writes[i] == text_write(
                    DPROG_PATH@ + "\\shell\\open\\command"@,
                    Seq::empty(),
                    command,
                )
        }),
{
    let writes = spec_registration(exe_path, exe_name, flag, icons_visible_set);
    let command = spec_open_command(exe_path, flag);
    let middle: Seq<WriteView> = if icons_visible_set {
        Seq::empty()
    } else {
        seq![icons_visible_write()]
    };
    let head = registration_head(exe_path, flag);
    assert(writes[2] == head[2]);
    assert(writes[2] == text_write(PROGID_PATH@ + "\\shell\\open\\command"@, Seq::empty(), command));
    let k: int = (head.len() + middle.len()) as int;
    assert(writes[k] == registration_tail(exe_path, exe_name, flag)[0]);
    assert(writes[k] == text_write(DPROG_PATH@ + "\\shell\\open\\command"@, Seq::empty(), command));
}

} // verus!
