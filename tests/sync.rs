use lms_records::lesson::Lesson;
use lms_records::run::BatchRun;
use lms_records::sync::{
    read_token_response, create_request, delivery_type, materials_to_remove, stored_refresh_token,
    ListResponse, RemoteMaterial, SyncError, TokenResponse, MODULE_ID,
};

#[test]
fn youtu_links_are_videos() {
    assert_eq!(delivery_type("https://youtu.be/abc"), "video");
    assert_eq!(delivery_type("https://www.youtube.com/watch?v=1"), "video");
    assert_eq!(delivery_type("xyoutuy"), "video");
    assert_eq!(delivery_type("https://drive.google.com/file"), "other");
    assert_eq!(delivery_type("YOUTU"), "other");
    assert_eq!(delivery_type(""), "other");
}

#[test]
fn create_request_carries_lesson_and_group() {
    let l = Lesson { name: "Tech skills Intro".to_string(), link: "https://youtu.be/1".to_string() };
    let r = create_request(42, &l);
    assert_eq!(r.category, "group");
    assert_eq!(r.kind, "video");
    assert_eq!(r.module_id, MODULE_ID);
    assert_eq!(r.module_id, 17063573);
    assert_eq!(r.group_id, 42);
    assert_eq!(r.name, "Tech skills Intro");
    assert_eq!(r.link, "https://youtu.be/1");
}

fn names(ns: &[&str]) -> Vec<String> {
    ns.iter().map(|s| s.to_string()).collect()
}

#[test]
fn upload_stops_at_first_rejection() {
    let mut run = BatchRun::new(names(&["a", "b", "c"]));
    let replies = [(true, "ok"), (false, "bad link"), (true, "ok")];
    let mut calls = vec![];
    while let Some(i) = run.next_index() {
        calls.push(i);
        let (ok, msg) = replies[i];
        run.record_reply(ok, msg.to_string());
    }
    assert_eq!(calls, vec![0, 1]);
    match run.finish_upload() {
        Err(SyncError::UploadFailed(n, m)) => {
            assert_eq!(n, "b");
            assert_eq!(m, "bad link");
        }
        other => panic!("unexpected {:?}", other),
    }
}

#[test]
fn run_with_all_accepted_calls_every_item() {
    let ls = vec![
        Lesson { name: "x".to_string(), link: "1".to_string() },
        Lesson { name: "y".to_string(), link: "2".to_string() },
    ];
    let mut run = BatchRun::for_lessons(&ls);
    let mut calls = vec![];
    while let Some(i) = run.next_index() {
        calls.push(i);
        run.record_reply(true, String::new());
    }
    assert_eq!(calls, vec![0, 1]);
    assert!(run.finish_upload().is_ok());
}

#[test]
fn remove_stops_at_first_rejection() {
    let ms = vec![
        RemoteMaterial { id: 7, name: "m1".to_string() },
        RemoteMaterial { id: 8, name: "m2".to_string() },
        RemoteMaterial { id: 9, name: "m3".to_string() },
    ];
    let mut run = BatchRun::for_materials(&ms);
    let mut ids = vec![];
    while let Some(i) = run.next_index() {
        ids.push(ms[i].id);
        run.record_reply(i != 0, "gone".to_string());
    }
    assert_eq!(ids, vec![7]);
    match run.finish_remove() {
        Err(SyncError::RemoveFailed(n, m)) => {
            assert_eq!(n, "m1");
            assert_eq!(m, "gone");
        }
        other => panic!("unexpected {:?}", other),
    }
}

#[test]
fn empty_run_asks_nothing() {
    let run = BatchRun::new(vec![]);
    assert_eq!(run.next_index(), None);
    assert!(run.finish_remove().is_ok());
}

#[test]
fn list_without_group_is_invalid() {
    let r = materials_to_remove(ListResponse { success: true, error: String::new(), group: None });
    assert!(matches!(r, Err(SyncError::InvalidResponse)));
}

#[test]
fn list_rejection_carries_message() {
    let r = materials_to_remove(ListResponse { success: false, error: "denied".to_string(), group: None });
    match r {
        Err(SyncError::RemoteRejected(m)) => assert_eq!(m, "denied"),
        other => panic!("unexpected {:?}", other),
    }
}

#[test]
fn list_gives_materials_in_order() {
    let group = vec![
        RemoteMaterial { id: 2, name: "b".to_string() },
        RemoteMaterial { id: 1, name: "a".to_string() },
    ];
    let r = materials_to_remove(ListResponse { success: true, error: String::new(), group: Some(group) });
    let ms = r.unwrap();
    let ids: Vec<u64> = ms.iter().map(|m| m.id).collect();
    assert_eq!(ids, vec![2, 1]);
}

#[test]
fn token_response_success_and_failure() {
    let ok = read_token_response(TokenResponse {
        success: true,
        error: String::new(),
        refresh_token: "r2".to_string(),
        access_token: "a2".to_string(),
    });
    let p = ok.unwrap();
    assert_eq!(p.refresh_token, "r2");
    assert_eq!(p.access_token, "a2");
    let bad = read_token_response(TokenResponse {
        success: false,
        error: "wrong password".to_string(),
        refresh_token: String::new(),
        access_token: String::new(),
    });
    match bad {
        Err(SyncError::RemoteRejected(m)) => assert_eq!(m, "wrong password"),
        other => panic!("unexpected {:?}", other),
    }
}

#[test]
fn missing_refresh_token_is_reported() {
    assert!(matches!(stored_refresh_token(None), Err(SyncError::MissingCredential)));
    assert_eq!(stored_refresh_token(Some("tok".to_string())).unwrap(), "tok");
}
