use kasugai_box::jobs::{JobStatus, Jobs};

#[test]
fn created_job_is_queued_with_a_uuid() {
    let mut jobs = Jobs::new();
    let id = jobs.create();
    assert_eq!(id.len(), 36);
    for (i, c) in id.chars().enumerate() {
        if [8, 13, 18, 23].contains(&i) {
            assert_eq!(c, '-');
        } else {
            assert!(c.is_ascii_hexdigit() && !c.is_ascii_uppercase());
        }
    }
    let job = jobs.get(&id).unwrap();
    assert_eq!(job.job_id, id);
    assert_eq!(job.status, JobStatus::Queued);
    assert_eq!(job.progress, 0);
    assert!(job.message.is_none() && job.result.is_none() && job.error.is_none());
    let other = jobs.create();
    assert_ne!(other, id);
}

#[test]
fn job_lifecycle() {
    let mut jobs = Jobs::new();
    let id = jobs.create();
    jobs.set_running(&id);
    assert_eq!(jobs.get(&id).unwrap().status, JobStatus::Running);
    jobs.set_progress(&id, 250, Some("half".to_string()));
    let j = jobs.get(&id).unwrap();
    assert_eq!(j.progress, 100);
    assert_eq!(j.message.as_deref(), Some("half"));
    jobs.set_progress(&id, 42, None);
    assert_eq!(jobs.get(&id).unwrap().progress, 42);
    jobs.mark_cancelled(&id);
    assert!(jobs.is_cancelled(&id));
    jobs.complete(&id, "{\"ok\":true}".to_string());
    let j = jobs.get(&id).unwrap();
    assert_eq!(j.status, JobStatus::Succeeded);
    assert_eq!(j.progress, 100);
    assert_eq!(j.result.as_deref(), Some("{\"ok\":true}"));
    assert!(!jobs.is_cancelled(&id));
}

#[test]
fn failed_job_keeps_its_progress() {
    let mut jobs = Jobs::new();
    let id = jobs.create();
    jobs.set_progress(&id, 30, None);
    jobs.mark_cancelled(&id);
    jobs.fail(&id, "処理を停止しました".to_string());
    let j = jobs.get(&id).unwrap();
    assert_eq!(j.status, JobStatus::Failed);
    assert_eq!(j.progress, 30);
    assert_eq!(j.error.as_deref(), Some("処理を停止しました"));
    assert!(!jobs.is_cancelled(&id));
}

#[test]
fn unknown_ids_are_ignored() {
    let mut jobs = Jobs::new();
    jobs.set_running("nope");
    jobs.set_progress("nope", 5, None);
    jobs.complete("nope", String::new());
    assert!(jobs.get("nope").is_none());
    jobs.mark_cancelled("nope");
    assert!(jobs.is_cancelled("nope"));
    jobs.insert_queued("fixed".to_string());
    jobs.set_progress("fixed", 9, None);
    jobs.insert_queued("fixed".to_string());
    assert_eq!(jobs.get("fixed").unwrap().progress, 0);
}
