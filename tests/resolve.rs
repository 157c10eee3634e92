use ntfs_get::batch::{begin_job, continue_after, extraction_source, FailurePolicy, JobError};
use ntfs_get::nav::{cd_root, CommandInfo};
use ntfs_get::resolve::{Action, Lookup, ResolveError, Resolved, Resolver};

const ROOT: u64 = 5;

// A small volume: root(5) holds directory "Users"(40) and file "boot.ini"(41);
// Users holds directory "joseph"(50) and file "notes.txt"(51).
fn volume(directory: u64, name: &str) -> Lookup {
    match (directory, name) {
        (5, "Users") => Lookup::Directory(40),
        (5, "boot.ini") => Lookup::File(41),
        (40, "joseph") => Lookup::Directory(50),
        (40, "notes.txt") => Lookup::File(51),
        (50, "broken") => Lookup::DeviceError,
        _ => Lookup::NotFound,
    }
}

fn drive(mut resolver: Resolver, mut action: Action, info: &mut CommandInfo) -> Result<Resolved, ResolveError> {
    loop {
        match action {
            Action::Lookup { directory, name } => {
                let found = volume(directory, &name);
                action = resolver.answer(info, found);
            }
            Action::Done(result) => return result,
        }
    }
}

fn resolve(path: &str, info: &mut CommandInfo) -> Result<Resolved, ResolveError> {
    let (resolver, action) = Resolver::start(path, info);
    drive(resolver, action, info)
}

fn session() -> CommandInfo {
    CommandInfo::new(ROOT, "C:\\", ".")
}

#[test]
fn empty_path_is_a_no_op() {
    let mut info = session();
    resolve("Users", &mut info).unwrap();
    let before = info.directories().clone();
    let r = resolve("", &mut info);
    assert!(matches!(r, Ok(Resolved::Directory)));
    assert_eq!(info.directories(), &before);
    assert_eq!(info.current_directory_name(), "C:\\Users\\");
}

#[test]
fn parent_at_root_stays_at_root() {
    let mut info = session();
    let r = resolve("..", &mut info);
    assert!(matches!(r, Ok(Resolved::Directory)));
    assert_eq!(info.directories(), &vec![ROOT]);
    assert_eq!(info.current_directory_name(), "C:\\");
    let r = resolve("..\\..\\Users", &mut info);
    assert!(matches!(r, Ok(Resolved::Directory)));
    assert_eq!(info.directories(), &vec![ROOT, 40]);
}

#[test]
fn missing_component_keeps_prefix() {
    let mut only_a = session();
    resolve("Users", &mut only_a).unwrap();
    let mut info = session();
    let r = resolve("Users\\nobody", &mut info);
    assert!(matches!(r, Err(ResolveError::ComponentNotFound)));
    assert_eq!(info.directories(), only_a.directories());
    assert_eq!(info.current_directory_name(), "C:\\Users\\");
}

#[test]
fn trailing_file_is_the_target() {
    let mut info = session();
    let r = resolve("Users\\notes.txt", &mut info);
    match r {
        Ok(Resolved::File { record, name }) => {
            assert_eq!(record, 51);
            assert_eq!(name, "notes.txt");
        }
        _ => panic!("expected a file"),
    }
    assert_eq!(info.directories(), &vec![ROOT, 40]);
}

#[test]
fn file_in_the_middle_is_not_a_directory() {
    let mut info = session();
    let r = resolve("boot.ini\\x", &mut info);
    assert!(matches!(r, Err(ResolveError::NotADirectory)));
    assert_eq!(info.directories(), &vec![ROOT]);
}

#[test]
fn device_error_is_reported() {
    let mut info = session();
    let r = resolve("Users\\joseph\\broken", &mut info);
    assert!(matches!(r, Err(ResolveError::DeviceIo)));
    assert_eq!(info.directories(), &vec![ROOT, 40, 50]);
}

#[test]
fn path_string_follows_the_stack() {
    let mut info = session();
    resolve("Users\\joseph", &mut info).unwrap();
    assert_eq!(info.current_directory_name(), "C:\\Users\\joseph\\");
    assert_eq!(info.current(), 50);
    resolve("..", &mut info).unwrap();
    assert_eq!(info.current_directory_name(), "C:\\Users\\");
    assert_eq!(info.directories(), &vec![ROOT, 40]);
    cd_root(&mut info);
    assert_eq!(info.current_directory_name(), "C:\\");
    assert_eq!(info.directories(), &vec![ROOT]);
}

#[test]
fn record_numbers_in_both_bases_agree() {
    let mut info = session();
    let a = resolve("/255", &mut info);
    let b = resolve("/0xFF", &mut info);
    assert!(matches!(a, Ok(Resolved::Record(255))));
    assert!(matches!(b, Ok(Resolved::Record(255))));
    assert_eq!(info.directories(), &vec![ROOT]);
    assert!(matches!(resolve("/0xZZ", &mut info), Err(ResolveError::RecordNumberParse)));
}

#[test]
fn second_job_starts_from_root() {
    let mut info = session();
    let (resolver, action) = begin_job(&mut info, "Users\\joseph\\missing");
    let first = drive(resolver, action, &mut info);
    assert!(matches!(first, Err(ResolveError::ComponentNotFound)));
    assert!(continue_after(FailurePolicy::Continue, false));
    assert!(!continue_after(FailurePolicy::Abort, false));
    let (resolver, action) = begin_job(&mut info, "Users\\notes.txt");
    let second = drive(resolver, action, &mut info);
    assert_eq!(extraction_source(&second), Ok(51));
    assert_eq!(info.directories(), &vec![ROOT, 40]);
}

#[test]
fn directory_target_is_not_a_file() {
    let mut info = session();
    let (resolver, action) = begin_job(&mut info, "Users");
    let r = drive(resolver, action, &mut info);
    assert_eq!(extraction_source(&r), Err(JobError::NotAFile));
    let r = resolve("Users\\x", &mut info);
    assert_eq!(extraction_source(&r), Err(JobError::Resolve(ResolveError::ComponentNotFound)));
    assert_eq!(extraction_source(&Ok(Resolved::Record(7))), Ok(7));
}
