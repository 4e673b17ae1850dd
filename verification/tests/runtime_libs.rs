use ndk_build::apk::{ApkConfig, StripConfig, UnalignedApk};
use ndk_build::command::Event;
use ndk_build::error::NdkError;
use ndk_build::job::Progress;
use ndk_build::manifest::{AndroidManifest, Sdk};
use ndk_build::ndk::Ndk;
use ndk_build::ports::PortForwards;
use ndk_build::command::Action;
use ndk_build::runtime::{runtime_libs_dir, select_shared_libraries, LibraryWalk, Listing};
use ndk_build::target::Target;

fn text(s: &str) -> String {
    s.to_string()
}

fn texts(items: &[&str]) -> Vec<String> {
    items.iter().map(|s| s.to_string()).collect()
}

fn config() -> ApkConfig {
    ApkConfig {
        ndk: Ndk { default_target_platform: 30 },
        build_dir: text("build"),
        apk_name: text("demo"),
        assets: None,
        resources: None,
        manifest: AndroidManifest {
            package: text("com.example"),
            sdk: Sdk { target_sdk_version: Some(31) },
        },
        disable_aapt_compression: false,
        strip: StripConfig::Default,
        reverse_port_forward: PortForwards::new(),
    }
}

fn created(config: &ApkConfig) -> UnalignedApk<'_> {
    let mut progress = config.create_apk("android.jar");
    loop {
        match progress {
            Progress::Continue(job) => progress = job.step(Event::Succeeded),
            Progress::Finished(apk) => return apk,
            Progress::Failed(error, ()) => panic!("failed: {:?}", error),
        }
    }
}

/// Walks to the end, taking the dependencies of each library from `needs`.
fn walk_all(mut walk: LibraryWalk, needs: &[(&str, &[&str])]) -> Vec<String> {
    let mut order = Vec::new();
    loop {
        let library = match walk.due() {
            Some(library) => library.clone(),
            None => return order,
        };
        let dependencies = needs
            .iter()
            .find(|(name, _)| *name == library)
            .map(|(_, dependencies)| texts(dependencies))
            .unwrap_or_default();
        order.push(library);
        walk = walk.advance(dependencies);
    }
}

#[test]
fn runtime_libs_lie_in_the_directory_of_the_abi() {
    assert_eq!(runtime_libs_dir("runtime_libs", Target::Arm64V8a), "runtime_libs/arm64-v8a");
    assert_eq!(runtime_libs_dir("runtime_libs/", Target::X86), "runtime_libs/x86");
}

#[test]
fn only_shared_libraries_are_selected() {
    let names = texts(&["libb.so", "README", "liba.so", "libc.so.1", ".so", "libd.a"]);
    assert_eq!(
        select_shared_libraries("libs/x86", &names),
        texts(&["libs/x86/libb.so", "libs/x86/liba.so"])
    );
    assert_eq!(select_shared_libraries("libs/x86", &Vec::new()), Vec::<String>::new());
}

#[test]
fn add_runtime_libs_begins_with_the_shared_libraries_of_the_abi() {
    let config = config();
    let apk = created(&config);
    let walk = apk
        .add_runtime_libs(
            "libs",
            Target::X86,
            Listing::Names(texts(&["liba.so", "notes.txt", "libb.so"])),
        )
        .unwrap();
    assert_eq!(walk_all(walk, &[]), texts(&["libs/x86/libb.so", "libs/x86/liba.so"]));
}

#[test]
fn add_runtime_libs_fails_for_a_directory_that_cannot_be_read() {
    let config = config();
    let apk = created(&config);
    let result = apk.add_runtime_libs(
        "libs",
        Target::Arm64V8a,
        Listing::Unreadable(text("not a directory")),
    );
    match result {
        Err(error) => assert_eq!(
            error,
            NdkError::IoPathError(text("libs/arm64-v8a"), text("not a directory"))
        ),
        Ok(_) => panic!("unexpected success"),
    }
}

#[test]
fn a_walk_without_libraries_is_over() {
    let walk = LibraryWalk::new(Vec::new());
    assert!(walk.due().is_none());
    let walk = walk.advance(texts(&["liba.so"]));
    assert!(walk.due().is_none());
    assert!(walk.staged().is_empty());
}

#[test]
fn a_library_named_twice_is_walked_once() {
    let walk = LibraryWalk::new(texts(&["liba.so", "libb.so", "liba.so"]));
    assert_eq!(walk_all(walk, &[]), texts(&["libb.so", "liba.so"]));
}

#[test]
fn dependencies_of_dependencies_are_walked() {
    let walk = LibraryWalk::new(texts(&["libapp.so"]));
    let order = walk_all(
        walk,
        &[
            ("libapp.so", &["libui.so", "libnet.so"]),
            ("libnet.so", &["libtls.so"]),
            ("libtls.so", &["libcrypto.so"]),
        ],
    );
    assert_eq!(
        order,
        texts(&["libapp.so", "libnet.so", "libtls.so", "libcrypto.so", "libui.so"])
    );
}

#[test]
fn a_library_that_many_depend_on_is_walked_once() {
    let walk = LibraryWalk::new(texts(&["liba.so", "libb.so"]));
    let order = walk_all(
        walk,
        &[
            ("liba.so", &["libshared.so", "libshared.so"]),
            ("libb.so", &["libshared.so", "liba.so"]),
            ("libshared.so", &["libshared.so", "libb.so"]),
        ],
    );
    assert_eq!(order, texts(&["libb.so", "libshared.so", "liba.so"]));
}

#[test]
fn the_walk_remembers_what_was_staged() {
    let walk = LibraryWalk::new(texts(&["liba.so"]));
    let walk = walk.advance(texts(&["libb.so"]));
    assert_eq!(walk.staged(), &texts(&["liba.so"]));
    assert_eq!(walk.due(), Some(&text("libb.so")));
    let walk = walk.advance(texts(&["liba.so"]));
    assert_eq!(walk.staged(), &texts(&["liba.so", "libb.so"]));
    assert!(walk.due().is_none());
}

#[test]
fn add_runtime_libs_fails_for_an_entry_that_cannot_be_read() {
    let config = config();
    let apk = created(&config);
    let result =
        apk.add_runtime_libs("libs", Target::Arm64V8a, Listing::Broken(text("input/output error")));
    match result {
        Err(error) => assert_eq!(error, NdkError::IoError(text("input/output error"))),
        Ok(_) => panic!("unexpected success"),
    }
}

/// What the packaging tool is asked to add when the package is aligned now.
fn staged(apk: UnalignedApk<'_>) -> Vec<String> {
    match apk.add_pending_libs_and_align() {
        Progress::Continue(job) => match job.action() {
            Action::Run(invocation) => invocation.args[2..].to_vec(),
            other => panic!("unexpected: {:?}", other),
        },
        _ => panic!("nothing to do"),
    }
}

/// Stages every library of the walk, taking the dependencies of each from
/// `needs`. The staging of the library called `failing` fails at its first
/// action.
fn stage_all<'a>(
    mut apk: UnalignedApk<'a>,
    mut walk: LibraryWalk,
    needs: &[(&str, &[&str])],
    failing: Option<&str>,
) -> Result<UnalignedApk<'a>, (NdkError, UnalignedApk<'a>)> {
    loop {
        let library = match walk.due() {
            Some(library) => library.clone(),
            None => return Ok(apk),
        };
        let mut progress = apk.stage_due(&walk, Target::X86);
        apk = loop {
            match progress {
                Progress::Continue(job) => {
                    let event = if failing == Some(library.as_str()) {
                        Event::Failed
                    } else {
                        Event::Succeeded
                    };
                    progress = job.step(event);
                }
                Progress::Finished(apk) => break apk,
                Progress::Failed(error, apk) => return Err((error, apk)),
            }
        };
        let dependencies = needs
            .iter()
            .find(|(name, _)| *name == library)
            .map(|(_, dependencies)| texts(dependencies))
            .unwrap_or_default();
        walk = walk.advance(dependencies);
    }
}

#[test]
fn stage_due_with_nothing_due_gives_the_package_back() {
    let config = config();
    let apk = created(&config);
    let walk = LibraryWalk::new(Vec::new());
    match apk.stage_due(&walk, Target::X86) {
        Progress::Finished(apk) => assert_eq!(staged(apk), Vec::<String>::new()),
        other => panic!("unexpected: {:?}", other),
    }
}

#[test]
fn stage_due_stages_the_library_that_is_due() {
    let config = config();
    let apk = created(&config);
    let walk = LibraryWalk::new(texts(&["libs/x86/liba.so", "libs/x86/libb.so"]));
    match apk.stage_due(&walk, Target::X86) {
        Progress::Continue(job) => {
            assert_eq!(job.action(), &Action::RequireFile(text("libs/x86/libb.so")));
        }
        other => panic!("unexpected: {:?}", other),
    }
}

#[test]
fn every_library_of_the_walk_is_staged_once_and_what_was_staged_stays() {
    let config = config();
    let mut progress = created(&config).add_lib("out/libmain.so", Target::X86);
    let apk = loop {
        match progress {
            Progress::Continue(job) => progress = job.step(Event::Succeeded),
            Progress::Finished(apk) => break apk,
            Progress::Failed(error, _) => panic!("failed: {:?}", error),
        }
    };
    let walk = apk
        .add_runtime_libs(
            "libs",
            Target::X86,
            Listing::Names(texts(&["liba.so", "libb.so.1", "libb.so", "liba.dwarf"])),
        )
        .unwrap();
    let apk = stage_all(
        apk,
        walk,
        &[
            ("libs/x86/liba.so", &["search/libshared.so", "search/libc++_shared.so"]),
            ("libs/x86/libb.so", &["search/libshared.so", "libs/x86/liba.so"]),
            ("search/libshared.so", &["search/libdeep.so", "libs/x86/libb.so"]),
        ],
        None,
    )
    .unwrap();
    assert_eq!(
        staged(apk),
        texts(&[
            "lib/x86/libmain.so",
            "lib/x86/libb.so",
            "lib/x86/libshared.so",
            "lib/x86/libdeep.so",
            "lib/x86/liba.so",
            "lib/x86/libc++_shared.so",
        ])
    );
}

#[test]
fn what_was_staged_before_a_failure_in_the_walk_stays() {
    let config = config();
    let apk = created(&config);
    let walk = apk
        .add_runtime_libs("libs", Target::X86, Listing::Names(texts(&["liba.so", "libb.so"])))
        .unwrap();
    let end = stage_all(
        apk,
        walk,
        &[("libs/x86/libb.so", &["search/libshared.so"])],
        Some("libs/x86/liba.so"),
    );
    match end {
        Err((error, apk)) => {
            assert_eq!(error, NdkError::PathNotFound(text("libs/x86/liba.so")));
            assert_eq!(staged(apk), texts(&["lib/x86/libb.so", "lib/x86/libshared.so"]));
        }
        Ok(_) => panic!("unexpected success"),
    }
}
