//! The installer: what it does for which arguments, the steps of an
//! installation, and the texts that it shows and registers.

use vstd::prelude::*;
use vstd::string::*;
use crate::text::join;

verus! {

/// The name of the product.
pub const APP_NAME: &'static str = "iRig USB ASIO Driver (Rust)";

/// The key under which Windows lists the product for removal.
pub const REG_UNINSTALL_PATH: &'static str = "SOFTWARE\\Microsoft\\Windows\\CurrentVersion\\Uninstall\\iRigAsioDriver";

/// The directory that is taken where the system names none for programs.
pub const DEFAULT_PROGRAM_FILES: &'static str = "C:\\Program Files";

// ---------------------------------------------------------------------------
// Arguments
// ---------------------------------------------------------------------------

/// What the installer is to do.
#[derive(Clone, Copy, Debug, PartialEq, Eq, Structural)]
pub enum Task {
    /// Start again with the rights of an administrator.
    Relaunch,
    Install,
    Uninstall,
}

/// The text of every argument.
pub open spec fn arg_texts(args: Seq<String>) -> Seq<Seq<char>> {
    args.map_values(|a: String| a@)
}

/// The argument that asks for removal is among the arguments.
pub open spec fn wants_uninstall(args: Seq<Seq<char>>) -> bool {
    exists|i: int| 0 <= i < args.len() && #[trigger] args[i] == "--uninstall"@
}

/// What to do, from whether the installer has the rights of an administrator and
/// from its arguments.
pub fn choose_task(elevated: bool, args: &Vec<String>) -> (r: Task)
    ensures
        r == (if !elevated {
            Task::Relaunch
        } else if wants_uninstall(arg_texts(args@)) {
            Task::Uninstall
        } else {
            Task::Install
        }),
{
    if !elevated {
        return Task::Relaunch;
    }
    let flag = String::from_str("--uninstall");
    let mut i: usize = 0;
    while i < args.len()
        invariant
            elevated,
            i <= args.len(),
            flag@ == "--uninstall"@,
            forall|j: int| 0 <= j < i ==> #[trigger] args@[j]@ != "--uninstall"@,
        decreases args.len() - i,
    {
        if args[i] == flag {
            assert(arg_texts(args@)[i as int] == "--uninstall"@);
            return Task::Uninstall;
        }
        i += 1;
    }
    assert(forall|j: int| 0 <= j < args@.len() ==> arg_texts(args@)[j] == #[trigger] args@[j]@);
    Task::Install
}

/// The texts with a space between each two of them.
pub open spec fn spaced(s: Seq<Seq<char>>) -> Seq<char>
    decreases s.len(),
{
    if s.len() == 0 {
        Seq::empty()
    } else if s.len() == 1 {
        s[0]
    } else {
        spaced(s.drop_last()) + seq![' '] + s.last()
    }
}

/// The arguments for the new start: all but the first, which is the program, in
/// one text; none if that text is empty.
pub fn relaunch_args(args: &Vec<String>) -> (r: Option<String>)
    ensures
        ({
            let text = spaced(arg_texts(args@).skip(1));
            if args.len() == 0 || text.len() == 0 {
                r is None
            } else {
                r matches Some(s) && s@ == text
            }
        }),
{
    let mut s = String::new();
    let mut i: usize = 1;
    let ghost rest = arg_texts(args@).skip(1);
    if args.len() == 0 {
        return None;
    }
    assert(s@ == spaced(rest.take(0)));
    while i < args.len()
        invariant
            1 <= i <= args.len(),
            rest == arg_texts(args@).skip(1),
            s@ == spaced(rest.take(i - 1)),
        decreases args.len() - i,
    {
        assert(rest.take(i as int).drop_last() =~= rest.take(i - 1));
        assert(rest.take(i as int).last() == args@[i as int]@);
        if i > 1 {
            s.append(" ");
            proof {
                reveal_strlit(" ");
                assert(" "@ =~= seq![' ']);
            }
        } else {
            assert(rest.take(0) =~= Seq::empty());
        }
        s.append(args[i].as_str());
        assert(s@ =~= spaced(rest.take(i as int)));
        i += 1;
    }
    assert(rest.take(rest.len() as int) =~= rest);
    if s.as_str().is_empty() {
        return None;
    }
    Some(s)
}

// ---------------------------------------------------------------------------
// Installation
// ---------------------------------------------------------------------------

/// A step of an installation.
#[derive(Clone, Copy, Debug, PartialEq, Eq, Structural)]
pub enum InstallStep {
    /// Create the directory.
    CreateDirectory,
    /// Write the driver's DLL into it.
    WriteDll,
    /// Copy the installer next to it, as the program that removes it.
    CopyUninstaller,
    /// Register the DLL.
    RegisterDll,
    /// List the product for removal.
    ListForRemoval,
    /// Say that the installation succeeded.
    Report,
}

/// What became of a step.
#[derive(Debug)]
pub enum StepOutcome {
    /// It succeeded.
    Done,
    /// It failed, with this message of the system.
    Failed(String),
    /// It ran a program that did not succeed.
    Unsuccessful,
}

/// What follows a step.
#[derive(Debug)]
pub enum InstallNext {
    /// The next step.
    Step(InstallStep),
    /// The installation fails with this message.
    Fail(String),
    /// The installation is over.
    Finished,
}

/// What an [`InstallNext`] holds.
pub enum NextModel {
    Step(InstallStep),
    Fail(Seq<char>),
    Finished,
}

impl View for InstallNext {
    type V = NextModel;

    open spec fn view(&self) -> NextModel {
        match self {
            InstallNext::Step(s) => NextModel::Step(*s),
            InstallNext::Fail(m) => NextModel::Fail(m@),
            InstallNext::Finished => NextModel::Finished,
        }
    }
}

/// What follows a step in the installation of the DLL `dll` into the directory
/// `dir`. Only the copying of the installer may fail.
pub open spec fn after_step(
    step: InstallStep,
    outcome: StepOutcome,
    dir: Seq<char>,
    dll: Seq<char>,
) -> NextModel {
    match step {
        InstallStep::CreateDirectory => match outcome {
            StepOutcome::Failed(e) => NextModel::Fail(
                "Failed to create install directory "@ + dir + ": "@ + e@,
            ),
            _ => NextModel::Step(InstallStep::WriteDll),
        },
        InstallStep::WriteDll => match outcome {
            StepOutcome::Failed(e) => NextModel::Fail(
                "Failed to write driver DLL "@ + dll + ": "@ + e@,
            ),
            _ => NextModel::Step(InstallStep::CopyUninstaller),
        },
        InstallStep::CopyUninstaller => NextModel::Step(InstallStep::RegisterDll),
        InstallStep::RegisterDll => match outcome {
            StepOutcome::Failed(e) => NextModel::Fail("Failed to run regsvr32: "@ + e@),
            StepOutcome::Unsuccessful => NextModel::Fail("regsvr32 registration failed"@),
            StepOutcome::Done => NextModel::Step(InstallStep::ListForRemoval),
        },
        InstallStep::ListForRemoval => match outcome {
            StepOutcome::Failed(_) => NextModel::Fail(
                "Failed to create Windows Uninstall registry key"@,
            ),
            _ => NextModel::Step(InstallStep::Report),
        },
        InstallStep::Report => NextModel::Finished,
    }
}

fn about(what: &str, subject: &str, e: &String) -> (r: String)
    ensures
        r@ == what@ + subject@ + ": "@ + e@,
{
    let mut s = join(what, subject);
    s.append(": ");
    s.append(e.as_str());
    s
}

/// Takes an installation one step further; see [`after_step`]. It begins with
/// [`InstallStep::CreateDirectory`].
pub fn install(step: InstallStep, outcome: &StepOutcome, dir: &str, dll: &str) -> (r: InstallNext)
    ensures
        r@ == after_step(step, *outcome, dir@, dll@),
{
    match (step, outcome) {
        (InstallStep::CreateDirectory, StepOutcome::Failed(e)) => InstallNext::Fail(
            about("Failed to create install directory ", dir, e),
        ),
        (InstallStep::CreateDirectory, _) => InstallNext::Step(InstallStep::WriteDll),
        (InstallStep::WriteDll, StepOutcome::Failed(e)) => InstallNext::Fail(
            about("Failed to write driver DLL ", dll, e),
        ),
        (InstallStep::WriteDll, _) => InstallNext::Step(InstallStep::CopyUninstaller),
        (InstallStep::CopyUninstaller, _) => InstallNext::Step(InstallStep::RegisterDll),
        (InstallStep::RegisterDll, StepOutcome::Failed(e)) => InstallNext::Fail(
            join("Failed to run regsvr32: ", e.as_str()),
        ),
        (InstallStep::RegisterDll, StepOutcome::Unsuccessful) => InstallNext::Fail(
            String::from_str("regsvr32 registration failed"),
        ),
        (InstallStep::RegisterDll, StepOutcome::Done) => InstallNext::Step(
            InstallStep::ListForRemoval,
        ),
        (InstallStep::ListForRemoval, StepOutcome::Failed(_)) => InstallNext::Fail(
            String::from_str("Failed to create Windows Uninstall registry key"),
        ),
        (InstallStep::ListForRemoval, _) => InstallNext::Step(InstallStep::Report),
        (InstallStep::Report, _) => InstallNext::Finished,
    }
}

/// The message after a successful installation.
pub fn success_message(dll: &str) -> (r: String)
    ensures
        r@
            == "Installation successful!\n\nThe iRig USB ASIO Driver has been installed to:\n"@
            + dll@ + "\n\nYou can now select 'iRig USB ASIO' in your DAW or ToneLib GFX."@,
{
    let mut s = join(
        "Installation successful!\n\nThe iRig USB ASIO Driver has been installed to:\n",
        dll,
    );
    s.append("\n\nYou can now select 'iRig USB ASIO' in your DAW or ToneLib GFX.");
    s
}

/// The message after a failed installation or removal.
pub fn failure_message(task: Task, e: &str) -> (r: String)
    ensures
        r@ == (if task == Task::Uninstall {
            "Uninstall failed: "@
        } else {
            "Installation failed: "@
        }) + e@,
{
    if task == Task::Uninstall {
        join("Uninstall failed: ", e)
    } else {
        join("Installation failed: ", e)
    }
}

/// The title of a message, which says whether it is about an error.
pub fn message_title(is_error: bool) -> (r: String)
    ensures
        r@ == APP_NAME@ + (if is_error {
            " Setup Error"@
        } else {
            " Setup"@
        }),
{
    if is_error {
        join(APP_NAME, " Setup Error")
    } else {
        join(APP_NAME, " Setup")
    }
}

// ---------------------------------------------------------------------------
// The entry for removal
// ---------------------------------------------------------------------------

/// The values under which Windows lists the product for removal, with the
/// program that removes it.
pub open spec fn uninstall_values(program: Seq<char>) -> Seq<(Seq<char>, Seq<char>)> {
    seq![
        ("DisplayName"@, APP_NAME@),
        ("UninstallString"@, "\""@ + program + "\" --uninstall"@),
        ("DisplayVersion"@, "0.1.0"@),
        ("Publisher"@, "Open Source / Community"@),
        ("DisplayIcon"@, program),
    ]
}

fn named(name: &str, value: String) -> (r: (String, String))
    ensures
        (r.0@, r.1@) == (name@, value@),
{
    (String::from_str(name), value)
}

/// The names and texts under which Windows lists the product for removal.
pub fn register_uninstall_entry(program: &str) -> (r: Vec<(String, String)>)
    ensures
        r@.map_values(|p: (String, String)| (p.0@, p.1@)) == uninstall_values(program@),
{
    let mut command = join("\"", program);
    command.append("\" --uninstall");
    let mut r: Vec<(String, String)> = Vec::new();
    r.push(named("DisplayName", String::from_str(APP_NAME)));
    r.push(named("UninstallString", command));
    r.push(named("DisplayVersion", String::from_str("0.1.0")));
    r.push(named("Publisher", String::from_str("Open Source / Community")));
    r.push(named("DisplayIcon", String::from_str(program)));
    assert(r@.map_values(|p: (String, String)| (p.0@, p.1@)) =~= uninstall_values(program@));
    r
}

// ---------------------------------------------------------------------------
// Removal
// ---------------------------------------------------------------------------

/// A step of a removal; none of them can make it fail.
#[derive(Clone, Copy, Debug, PartialEq, Eq, Structural)]
pub enum UninstallStep {
    /// Unregister the DLL.
    UnregisterDll,
    /// Delete the entry for removal.
    DeleteEntry,
    /// Delete the DLL.
    DeleteDll,
    /// Say that the removal succeeded.
    Report,
}

/// The steps of a removal. A DLL that is not there is not unregistered.
pub fn uninstall(dll_exists: bool) -> (r: Vec<UninstallStep>)
    ensures
        r@ == (if dll_exists {
            seq![UninstallStep::UnregisterDll]
        } else {
            Seq::empty()
        }) + seq![
            UninstallStep::DeleteEntry,
            UninstallStep::DeleteDll,
            UninstallStep::Report,
        ],
        r@.last() == UninstallStep::Report,
        dll_exists <==> r@[0] == UninstallStep::UnregisterDll,
        r@.contains(UninstallStep::DeleteEntry) && r@.contains(UninstallStep::DeleteDll),
        r.len() == (if dll_exists {
            4int
        } else {
            3int
        }),
{
    let mut r: Vec<UninstallStep> = Vec::new();
    if dll_exists {
        r.push(UninstallStep::UnregisterDll);
    }
    r.push(UninstallStep::DeleteEntry);
    r.push(UninstallStep::DeleteDll);
    r.push(UninstallStep::Report);
    assert(r@[r@.len() - 3] == UninstallStep::DeleteEntry);
    assert(r@[r@.len() - 2] == UninstallStep::DeleteDll);
    r
}

/// The product is listed for removal only after its DLL has been registered, and
/// a success is reported only after it has been listed.
pub proof fn law_order_of_installation(
    step: InstallStep,
    outcome: StepOutcome,
    dir: Seq<char>,
    dll: Seq<char>,
)
    ensures
        after_step(step, outcome, dir, dll) == NextModel::Step(InstallStep::ListForRemoval) ==> step
            == InstallStep::RegisterDll && outcome is Done,
        after_step(step, outcome, dir, dll) == NextModel::Step(InstallStep::Report) ==> step
            == InstallStep::ListForRemoval && !(outcome is Failed),
        after_step(step, outcome, dir, dll) == NextModel::Finished ==> step == InstallStep::Report,
{
}

/// An installation whose steps succeed goes through all of them, in the order
/// directory, DLL, copy of the installer, registration, entry for removal, report.
pub proof fn law_successful_installation(dir: Seq<char>, dll: Seq<char>)
    ensures
        ({
            let next = |step: InstallStep| after_step(step, StepOutcome::Done, dir, dll);
            &&& next(InstallStep::CreateDirectory) == NextModel::Step(InstallStep::WriteDll)
            &&& next(InstallStep::WriteDll) == NextModel::Step(InstallStep::CopyUninstaller)
            &&& next(InstallStep::CopyUninstaller) == NextModel::Step(InstallStep::RegisterDll)
            &&& next(InstallStep::RegisterDll) == NextModel::Step(InstallStep::ListForRemoval)
            &&& next(InstallStep::ListForRemoval) == NextModel::Step(InstallStep::Report)
            &&& next(InstallStep::Report) == NextModel::Finished
        }),
{
}

/// A step that failed ends the installation with what could not be done and what
/// the system said of it, but for the copy of the installer, without which the
/// installation goes on.
pub proof fn law_failed_installation(e: String, dir: Seq<char>, dll: Seq<char>)
    ensures
        ({
            let next = |step: InstallStep| after_step(step, StepOutcome::Failed(e), dir, dll);
            &&& next(InstallStep::CreateDirectory) == NextModel::Fail(
                "Failed to create install directory "@ + dir + ": "@ + e@,
            )
            &&& next(InstallStep::WriteDll) == NextModel::Fail(
                "Failed to write driver DLL "@ + dll + ": "@ + e@,
            )
            &&& next(InstallStep::CopyUninstaller) == NextModel::Step(InstallStep::RegisterDll)
            &&& next(InstallStep::RegisterDll) == NextModel::Fail("Failed to run regsvr32: "@ + e@)
            &&& next(InstallStep::ListForRemoval) == NextModel::Fail(
                "Failed to create Windows Uninstall registry key"@,
            )
            &&& after_step(InstallStep::RegisterDll, StepOutcome::Unsuccessful, dir, dll)
                == NextModel::Fail("regsvr32 registration failed"@)
        }),
{
}

/// Texts are put together with one space between each two of them.
pub proof fn law_spaced(s: Seq<Seq<char>>, text: Seq<char>)
    ensures
        spaced(Seq::<Seq<char>>::empty()).len() == 0,
        spaced(seq![text]) == text,
        s.len() > 0 ==> spaced(s.push(text)) == spaced(s) + seq![' '] + text,
{
    assert(s.push(text).drop_last() =~= s);
}

/// The entry for removal names the product, its publisher and version, and runs
/// the program in quotes with the argument that asks for removal.
pub proof fn law_entry_for_removal(program: Seq<char>)
    ensures
        ({
            let v = uninstall_values(program);
            &&& v.len() == 5
            &&& v.contains(("DisplayName"@, "iRig USB ASIO Driver (Rust)"@))
            &&& v.contains(("UninstallString"@, seq!['"'] + program + "\" --uninstall"@))
            &&& v.contains(("DisplayVersion"@, "0.1.0"@))
            &&& v.contains(("Publisher"@, "Open Source / Community"@))
            &&& v.contains(("DisplayIcon"@, program))
        }),
{
    reveal_strlit("\"");
    let v = uninstall_values(program);
    assert("\""@ =~= seq!['"']);
    assert(v[0].0 == "DisplayName"@);
    assert(v[1].0 == "UninstallString"@);
    assert(v[2].0 == "DisplayVersion"@);
    assert(v[3].0 == "Publisher"@);
    assert(v[4].0 == "DisplayIcon"@);
}

/// Removal is asked for exactly where one of the arguments is the one for it,
/// wherever it stands.
pub proof fn law_removal_is_asked_for(
    before: Seq<Seq<char>>,
    after: Seq<Seq<char>>,
    args: Seq<Seq<char>>,
)
    ensures
        wants_uninstall(before + seq!["--uninstall"@] + after),
        wants_uninstall(args) <==> args.contains("--uninstall"@),
{
    let all = before + seq!["--uninstall"@] + after;
    assert(all[before.len() as int] == "--uninstall"@);
}

/// What follows a step, and a list of arguments, are what their contents say.
pub proof fn law_views_of_the_installer(
    args: Seq<String>,
    i: int,
    step: InstallStep,
    message: String,
)
    ensures
        arg_texts(args).len() == args.len(),
        0 <= i < args.len() ==> arg_texts(args)[i] == args[i]@,
        InstallNext::Step(step)@ == NextModel::Step(step),
        InstallNext::Fail(message)@ == NextModel::Fail(message@),
        InstallNext::Finished@ == NextModel::Finished,
{
}

} // verus!
