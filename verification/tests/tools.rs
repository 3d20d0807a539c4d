//! The installer and the signal probe.

use irig_asio::installer::InstallStep::{
    CopyUninstaller, CreateDirectory, ListForRemoval, RegisterDll, Report, WriteDll,
};
use irig_asio::installer::{
    choose_task, failure_message, install, message_title, register_uninstall_entry, relaunch_args,
    success_message, uninstall, InstallNext, InstallStep, StepOutcome, Task, UninstallStep,
};
use irig_asio::probe::{
    best_input, config_json, is_signal, level_bar, level_line, unnamed_input, winner, NOISE_FLOOR,
};

fn args(list: &[&str]) -> Vec<String> {
    list.iter().map(|a| a.to_string()).collect()
}

#[test]
fn tasks_of_the_installer() {
    assert_eq!(choose_task(false, &args(&["x", "--uninstall"])), Task::Relaunch);
    assert_eq!(choose_task(true, &args(&["x", "-v", "--uninstall"])), Task::Uninstall);
    assert_eq!(choose_task(true, &args(&["x", "--uninstal"])), Task::Install);
    assert_eq!(choose_task(true, &Vec::new()), Task::Install);
    assert_eq!(relaunch_args(&args(&["x", "a b", "", "c"])), Some("a b  c".to_string()));
    assert_eq!(relaunch_args(&args(&["x", "--uninstall"])), Some("--uninstall".to_string()));
    assert_eq!(relaunch_args(&args(&["x"])), None);
    assert_eq!(relaunch_args(&args(&["x", ""])), None);
    assert_eq!(relaunch_args(&Vec::new()), None);
}

fn next(step: InstallStep, outcome: StepOutcome) -> String {
    match install(step, &outcome, "DIR", "DLL") {
        InstallNext::Step(s) => format!("{:?}", s),
        InstallNext::Fail(m) => m,
        InstallNext::Finished => "finished".to_string(),
    }
}

fn failed() -> StepOutcome {
    StepOutcome::Failed("why".to_string())
}

#[test]
fn steps_of_an_installation() {
    assert_eq!(next(CreateDirectory, StepOutcome::Done), "WriteDll");
    assert_eq!(next(CreateDirectory, failed()), "Failed to create install directory DIR: why");
    assert_eq!(next(WriteDll, StepOutcome::Done), "CopyUninstaller");
    assert_eq!(next(WriteDll, failed()), "Failed to write driver DLL DLL: why");
    assert_eq!(next(CopyUninstaller, StepOutcome::Done), "RegisterDll");
    assert_eq!(next(CopyUninstaller, failed()), "RegisterDll");
    assert_eq!(next(RegisterDll, StepOutcome::Done), "ListForRemoval");
    assert_eq!(next(RegisterDll, failed()), "Failed to run regsvr32: why");
    assert_eq!(next(RegisterDll, StepOutcome::Unsuccessful), "regsvr32 registration failed");
    assert_eq!(next(ListForRemoval, StepOutcome::Done), "Report");
    assert_eq!(
        next(ListForRemoval, failed()),
        "Failed to create Windows Uninstall registry key"
    );
    assert_eq!(next(Report, StepOutcome::Done), "finished");
}

#[test]
fn texts_of_the_installer() {
    assert_eq!(
        success_message("C:\\d.dll"),
        "Installation successful!\n\nThe iRig USB ASIO Driver has been installed to:\nC:\\d.dll\n\nYou can now select 'iRig USB ASIO' in your DAW or ToneLib GFX."
    );
    assert_eq!(failure_message(Task::Install, "e"), "Installation failed: e");
    assert_eq!(failure_message(Task::Uninstall, "e"), "Uninstall failed: e");
    assert_eq!(message_title(false), "iRig USB ASIO Driver (Rust) Setup");
    assert_eq!(message_title(true), "iRig USB ASIO Driver (Rust) Setup Error");
    let values = register_uninstall_entry("C:\\u.exe");
    let expected = [
        ("DisplayName", "iRig USB ASIO Driver (Rust)"),
        ("UninstallString", "\"C:\\u.exe\" --uninstall"),
        ("DisplayVersion", "0.1.0"),
        ("Publisher", "Open Source / Community"),
        ("DisplayIcon", "C:\\u.exe"),
    ];
    assert_eq!(values.len(), 5);
    for (value, (name, text)) in values.iter().zip(expected) {
        assert_eq!((value.0.as_str(), value.1.as_str()), (name, text));
    }
}

#[test]
fn steps_of_a_removal() {
    let tail = [UninstallStep::DeleteEntry, UninstallStep::DeleteDll, UninstallStep::Report];
    assert_eq!(uninstall(false), tail.to_vec());
    assert_eq!(uninstall(true)[0], UninstallStep::UnregisterDll);
    assert_eq!(uninstall(true)[1..], tail);
}

#[test]
fn the_loudest_input_wins() {
    let level = |f: f32| f.to_bits();
    assert_eq!(NOISE_FLOOR, 0.001f32.to_bits());
    assert!(!is_signal(level(0.001)));
    assert!(is_signal(level(0.0010001)));
    assert_eq!(best_input(&Vec::new()), None);
    assert_eq!(best_input(&vec![level(0.2), level(0.3), level(0.3), level(0.1)]), Some(2));
    assert_eq!(best_input(&vec![0, 0]), Some(1));
    assert_eq!(winner(&vec![level(0.0005), level(0.0001)]), None);
    assert_eq!(winner(&vec![level(0.5), level(f32::INFINITY), level(0.0)]), Some(1));
    let mut sorted: Vec<f32> = vec![0.0, 1e-30, 0.001, 0.5, 1.0, 3e38];
    sorted.push(f32::INFINITY);
    for pair in sorted.windows(2) {
        assert!(level(pair[0]) < level(pair[1]));
    }
}

#[test]
fn texts_of_the_probe() {
    assert_eq!(config_json("iRig"), "{\n  \"preferred_input_device\": \"iRig\"\n}\n");
    assert_eq!(unnamed_input(12), "Input Device #12");
    assert_eq!(level_bar(0), "░".repeat(25));
    assert_eq!(level_bar(3), format!("{}{}", "█".repeat(3), "░".repeat(22)));
    assert_eq!(level_bar(99), "█".repeat(25));
    for (index, name) in [(3, "Microfone é"), (12, "x"), (100, "")] {
        for active in [false, true] {
            let status = if active { "  ★ ACTIVE GUITAR SIGNAL DETECTED!" } else { "" };
            assert_eq!(
                level_line(index, name, 5, "0.0500", active),
                format!(
                    "{:2}. {:<50} [{}] RMS: {:.4}{}",
                    index,
                    name,
                    level_bar(5),
                    0.05f32,
                    status
                )
            );
        }
    }
    let long = "n".repeat(60);
    assert!(level_line(1, &long, 0, "0", false).starts_with(&format!(" 1. {} [", long)));
}
