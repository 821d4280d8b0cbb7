use secure_folder::catalog::Role;
use secure_folder::cipher::{cipher_args, job_path, job_paths, job_result};
use secure_folder::error::{ErrorKind, SfError};
use secure_folder::pool::JobPool;
use secure_folder::run::{check_config, OpenSSLAesCommand, AES};

fn names(list: &[&str]) -> Vec<String> {
    list.iter().map(|s| s.to_string()).collect()
}

#[test]
fn zero_or_negative_threads_is_a_configuration_error() {
    for threads in [0, -1, -8] {
        let err = JobPool::new(Role::Encrypt, names(&["a"]), Vec::new(), threads).err().unwrap();
        assert_eq!(err.kind, ErrorKind::Configuration);
        let cmd = OpenSSLAesCommand::new("k".to_string(), "in".to_string(), "out".to_string(), threads);
        let empty: Vec<String> = Vec::new();
        assert_eq!(cmd.encrypt(&empty, &empty).err().unwrap().kind, ErrorKind::Configuration);
    }
}

#[test]
fn every_job_is_handed_out_once() {
    let jobs = names(&["a", "b", "c", "d", "e"]);
    let mut pool = JobPool::new(Role::Decrypt, jobs.clone(), Vec::new(), 3).ok().unwrap();
    assert_eq!(pool.threads(), 3);
    let mut seen = Vec::new();
    while let Some(a) = pool.dispatch() {
        assert_eq!(a.output_name, a.job);
        seen.push(a.job);
        assert!(pool.report(Ok(())));
    }
    assert!(pool.dispatch().is_none());
    assert_eq!(seen, names(&["e", "d", "c", "b", "a"]));
    assert!(pool.is_settled());
    let outcome = pool.into_outcome().ok().unwrap();
    assert_eq!(outcome.total, 5);
    assert_eq!(outcome.succeeded, 5);
    assert!(outcome.failures.is_empty());
}

#[test]
fn jobs_handed_out_before_reports_come_back() {
    let mut pool = JobPool::new(Role::Decrypt, names(&["a", "b"]), Vec::new(), 2).ok().unwrap();
    let first = pool.dispatch().unwrap();
    let second = pool.dispatch().unwrap();
    assert_eq!((first.job.as_str(), second.job.as_str()), ("b", "a"));
    assert!(pool.dispatch().is_none());
    assert!(!pool.is_settled());
    assert!(pool.report(Ok(())));
    assert!(pool.report(Ok(())));
    assert!(!pool.report(Ok(())));
    assert_eq!(pool.succeeded(), 2);
}

#[test]
fn one_failing_job_leaves_the_others_done() {
    let jobs = names(&["j1", "j2", "j3", "j4"]);
    let mut pool = JobPool::new(Role::Decrypt, jobs, Vec::new(), 2).ok().unwrap();
    while let Some(a) = pool.dispatch() {
        let ok = a.job != "j3";
        let result = job_result(ok, &a.job, "bad decrypt".to_string());
        assert!(pool.report(result));
    }
    assert_eq!(pool.failed(), 1);
    assert_eq!(pool.succeeded(), 3);
    assert_eq!(pool.total(), 4);
    let outcome = pool.into_outcome().ok().unwrap();
    assert_eq!(outcome.failures.len(), 1);
    assert_eq!(outcome.failures[0].kind, ErrorKind::Job);
    assert_eq!(outcome.failures[0].message, "failed to process j3");
    assert_eq!(outcome.failures[0].stderr, Some("bad decrypt".to_string()));
}

#[test]
fn report_without_job_is_refused() {
    let mut pool = JobPool::new(Role::Encrypt, Vec::new(), Vec::new(), 1).ok().unwrap();
    assert!(!pool.report(Ok(())));
    assert!(pool.dispatch().is_none());
    assert_eq!(pool.total(), 0);
}

#[test]
fn encrypt_names_outputs_and_reserves_them() {
    let id = "0057a2b4-fb8c-46bb-8133-ef9920b7bced";
    let mut pool = JobPool::new(Role::Encrypt, names(&["clip1", id]), names(&["other.enc"]), 1).ok().unwrap();
    let a = pool.dispatch().unwrap();
    assert_eq!(a.job, id);
    assert_eq!(a.output_name, id);
    let b = pool.dispatch().unwrap();
    assert_eq!(b.job, "clip1");
    assert_eq!(b.output_name.len(), 36);
    assert_ne!(b.output_name, id);
    assert_ne!(b.output_name, "other");
    assert_eq!(pool.role(), Role::Encrypt);
}

#[test]
fn plan_builds_pool_from_catalog() {
    let cmd = OpenSSLAesCommand::new("k".to_string(), "in".to_string(), "out".to_string(), 2);
    let inputs = names(&["a.mp4", "b.mp4"]);
    let outputs = names(&["a.enc"]);
    let mut pool = cmd.encrypt(&inputs, &outputs).ok().unwrap();
    assert_eq!(pool.total(), 1);
    assert_eq!(pool.dispatch().unwrap().job, "b");
    let pool = cmd.decrypt(&names(&["a.enc", "c.enc", "a.mp4"]), &names(&["a.mp4"])).ok().unwrap();
    assert_eq!(pool.total(), 1);
    assert_eq!(pool.role(), Role::Decrypt);
}

#[test]
fn encrypted_names_come_back_on_decrypt() {
    let id = "0057a2b4-fb8c-46bb-8133-ef9920b7bced";
    let cmd = OpenSSLAesCommand::new("k".to_string(), "d".to_string(), "d".to_string(), 1);
    let mut enc = cmd.encrypt(&names(&[&format!("{}.mp4", id)]), &Vec::new()).ok().unwrap();
    let a = enc.dispatch().unwrap();
    let (_, written) = job_paths(Role::Encrypt, "d", "d", &a.job, &a.output_name);
    assert_eq!(written, format!("d/{}.enc", id));
    let mut dec = cmd.decrypt(&names(&[&format!("{}.enc", id)]), &Vec::new()).ok().unwrap();
    let b = dec.dispatch().unwrap();
    let (read, restored) = job_paths(Role::Decrypt, "d", "d", &b.job, &b.output_name);
    assert_eq!(read, written);
    assert_eq!(restored, format!("d/{}.mp4", id));
}

#[test]
fn cipher_arguments_for_each_role() {
    assert_eq!(
        cipher_args(Role::Encrypt, "secret", "in/a.mp4", "out/b.enc"),
        names(&["aes-256-cbc", "-a", "-salt", "-pbkdf2", "-in", "in/a.mp4", "-out", "out/b.enc", "-k", "secret"])
    );
    assert_eq!(
        cipher_args(Role::Decrypt, "secret", "in/b.enc", "out/b.mp4"),
        names(&["aes-256-cbc", "-d", "-a", "-pbkdf2", "-in", "in/b.enc", "-out", "out/b.mp4", "-k", "secret"])
    );
}

#[test]
fn paths_join_directory_identifier_and_extension() {
    assert_eq!(job_path("/tmp/in", "clip", ".mp4"), "/tmp/in/clip.mp4");
    let (i, o) = job_paths(Role::Encrypt, "src", "dst", "clip", "name");
    assert_eq!((i.as_str(), o.as_str()), ("src/clip.mp4", "dst/name.enc"));
}

#[test]
fn job_result_success_and_failure() {
    assert!(job_result(true, "x", String::new()).is_ok());
    let e = job_result(false, "d/x.mp4", "boom".to_string()).err().unwrap();
    assert_eq!(e.kind, ErrorKind::Job);
    assert_eq!(e.message, "failed to process d/x.mp4");
}

#[test]
fn config_checks_in_order() {
    assert_eq!(check_config("encrypt", "k", true).ok().unwrap(), Role::Encrypt);
    assert_eq!(check_config("decrypt", "k", true).ok().unwrap(), Role::Decrypt);
    let e = check_config("encrypt", "k", false).err().unwrap();
    assert_eq!((e.kind, e.message.as_str()), (ErrorKind::Configuration, "input or output is not directory"));
    let e = check_config("encrypt", "", true).err().unwrap();
    assert_eq!(e.message, "key is empty");
    let e = check_config("shred", "k", true).err().unwrap();
    assert_eq!((e.kind, e.message.as_str()), (ErrorKind::Configuration, "Not defined action: shred"));
}

#[test]
fn plain_error_has_no_diagnostics() {
    let e = SfError::new("oops".to_string());
    assert_eq!(e.kind(), ErrorKind::General);
    assert_eq!(e.message, "oops");
    assert!(e.stderr.is_none() && e.stdout.is_none());
}

#[test]
fn thread_count_does_not_change_the_catalog() {
    let inputs = names(&["a.enc", "b.enc", "c.mp4"]);
    let outputs = names(&["b.mp4"]);
    let mut jobs = Vec::new();
    for threads in [1, 4] {
        let cmd = OpenSSLAesCommand::new("k".to_string(), "i".to_string(), "o".to_string(), threads);
        let mut pool = cmd.decrypt(&inputs, &outputs).ok().unwrap();
        let mut seen = Vec::new();
        while let Some(a) = pool.dispatch() {
            seen.push(a.job);
            assert!(pool.report(Ok(())));
        }
        jobs.push(seen);
    }
    assert_eq!(jobs[0], names(&["a"]));
    assert_eq!(jobs[0], jobs[1]);
}

#[test]
fn empty_catalog_is_nothing_to_do() {
    let cmd = OpenSSLAesCommand::new("k".to_string(), "i".to_string(), "o".to_string(), 2);
    let mut pool = cmd.encrypt(&names(&["a.mp4"]), &names(&["a.enc"])).ok().unwrap();
    assert_eq!(pool.total(), 0);
    assert!(pool.dispatch().is_none());
    let outcome = pool.into_outcome().ok().unwrap();
    assert_eq!((outcome.total, outcome.succeeded, outcome.failures.len()), (0, 0, 0));
}
