use heimdall::config::Config;
use heimdall::deploy::{
    actor_kind, last_release, Actor, Commit, Deploy, DeployStatus, Launch, Outcome, Queue,
};
use heimdall::table::Table;

fn deploy(id: i64, status: DeployStatus) -> Deploy {
    Deploy {
        id,
        repo: "simurgh".to_string(),
        actor: "007".to_string(),
        sender: None,
        begin: 0,
        finish: 0,
        status,
    }
}

fn commit(message: &str, author: &str) -> Commit {
    Commit { message: message.to_string(), author: author.to_string() }
}

fn config() -> Config {
    let mut deploy_repo = Table::new();
    deploy_repo.insert("simurgh".to_string(), "/srv/simurgh/deploy.sh".to_string());
    Config {
        bot_token: "b".to_string(),
        group_id: "g".to_string(),
        deploy_key: "key".to_string(),
        deploy_repo,
    }
}

#[test]
fn status_numbers() {
    let all = [
        (DeployStatus::Pending, 0),
        (DeployStatus::Running, 1),
        (DeployStatus::Failed, 2),
        (DeployStatus::Success, 3),
    ];
    for (status, number) in all {
        assert_eq!(status.to_i32(), number);
        assert_eq!(DeployStatus::from_i64(number as i64), status);
    }
    assert_eq!(DeployStatus::from_i64(4), DeployStatus::Pending);
    assert_eq!(DeployStatus::from_i64(-1), DeployStatus::Pending);
    assert_eq!(DeployStatus::from_i64(i64::MAX), DeployStatus::Pending);
}

#[test]
fn queue_of_unfinished_deploys() {
    assert_eq!(Queue::of(&[]), Queue { running: false, pending: None });
    let list = [
        deploy(1, DeployStatus::Failed),
        deploy(2, DeployStatus::Pending),
        deploy(3, DeployStatus::Running),
        deploy(4, DeployStatus::Pending),
    ];
    let queue = Queue::of(&list);
    assert_eq!(queue, Queue { running: true, pending: Some(1) });
    assert!(queue.full());
    let queue = Queue::of(&list[..2]);
    assert_eq!(queue, Queue { running: false, pending: Some(1) });
    assert!(!queue.full());
    let queue = Queue::of(&list[2..3]);
    assert_eq!(queue, Queue { running: true, pending: None });
    assert!(!queue.full());
    assert_eq!(Queue::of(&list[..1]), Queue { running: false, pending: None });
}

#[test]
fn what_runs_next() {
    let idle = Queue { running: false, pending: None };
    let running = Queue { running: true, pending: None };
    let waiting = Queue { running: false, pending: Some(0) };
    assert_eq!(idle.next(true), Launch::RunNew);
    assert_eq!(idle.next(false), Launch::RunNew);
    assert_eq!(running.next(true), Launch::Wait);
    assert_eq!(waiting.next(true), Launch::RunPending);
    assert_eq!(waiting.next(false), Launch::FailPendingRunNew);
}

#[test]
fn script_of_a_repository() {
    let config = config();
    assert_eq!(config.deploy_script("simurgh", "key").unwrap(), "/srv/simurgh/deploy.sh");
    let e = config.deploy_script("other", "key").unwrap_err();
    assert_eq!((e.status(), e.content()), (404, Some("repo not found")));
    let e = config.deploy_script("other", "wrong").unwrap_err();
    assert_eq!((e.status(), e.content()), (404, Some("repo not found")));
    let e = config.deploy_script("simurgh", "wrong").unwrap_err();
    assert_eq!((e.status(), e.content()), (403, Some("invalid password")));
}

#[test]
fn actors() {
    assert_eq!(actor_kind("github", Some("push")).unwrap(), Actor::Github);
    assert_eq!(actor_kind("sadra", None).unwrap(), Actor::Named);
    assert_eq!(actor_kind("007", Some("push")).unwrap(), Actor::Named);
    for event in [None, Some("ping"), Some("Push"), Some("")] {
        let e = actor_kind("github", event).unwrap_err();
        assert_eq!((e.status(), e.content()), (400, Some("bad github event. only push")));
    }
    for actor in ["", "GitHub", "Sadra", "008", "root"] {
        let e = actor_kind(actor, Some("push")).unwrap_err();
        assert_eq!((e.status(), e.content()), (403, Some("unknown actor")));
    }
}

#[test]
fn release_commits() {
    let commits = [
        commit("release 1.0", "ann"),
        commit("fix typo", "bob"),
        commit("prerelease notes", "cid"),
        commit("Release the hounds", "dan"),
    ];
    assert_eq!(last_release(&commits), Some(2));
    assert_eq!(commits[last_release(&commits).unwrap()].author, "cid");
    assert_eq!(last_release(&commits[..2]), Some(0));
    assert_eq!(last_release(&commits[1..2]), None);
    assert_eq!(last_release(&commits[3..]), None);
    assert_eq!(last_release(&[]), None);
}

#[test]
fn outcomes() {
    let ran = Outcome::of_output(b"done\n", b"");
    assert_eq!(ran.status, DeployStatus::Success);
    assert_eq!(ran.stdout.as_deref(), Some("done\n"));
    assert_eq!(ran.stderr.as_deref(), Some(""));
    let garbled = Outcome::of_output(b"ok \xff", "wärn".as_bytes());
    assert_eq!(garbled.status, DeployStatus::Success);
    assert_eq!(garbled.stdout.as_deref(), Some(""));
    assert_eq!(garbled.stderr.as_deref(), Some("wärn"));
    let failed = Outcome::of_error("No such file or directory (os error 2)");
    assert_eq!(failed.status, DeployStatus::Failed);
    assert_eq!(failed.stdout, None);
    assert_eq!(failed.stderr.as_deref(), Some("No such file or directory (os error 2)"));
}

#[test]
fn address_for_messages() {
    assert_eq!(
        config().message_url(),
        "https://api.telegram.org/botb/sendMessage?chat_id=g&message_thread_id=438"
    );
}
