use hyper::body::{Bytes, HttpBody};
use octostash::json::Json;
use octostash::stash::error::{Internal, StashError};
use octostash::stash::futures::body::{BodyEvent, Slice, SliceFuture, SliceInternal};
use octostash::stash::futures::ids_chunk::IdsChunkFuture;
use octostash::stash::futures::{Event, Progress};
use octostash::stash::http::{Header, HeaderContent, Method, Request};
use octostash::stash::{Action, Ids, IdsChunk, Operation, Outcome, Reply, IDS_CHUNK_SIZE};
use octostash::{Auth, Stash};
use std::pin::Pin;
use std::sync::Arc;
use std::task::{Context, Poll, Wake, Waker};

struct Sleeper;

impl Wake for Sleeper {
    fn wake(self: Arc<Self>) {}
}

fn transport_error() -> hyper::Error {
    let (sender, mut body) = hyper::Body::channel();
    sender.abort();
    let waker = Waker::from(Arc::new(Sleeper));
    let mut context = Context::from_waker(&waker);
    match Pin::new(&mut body).poll_data(&mut context) {
        Poll::Ready(Some(Err(error))) => error,
        _ => panic!("the aborted body did not fail"),
    }
}

fn request_error() -> hyper::http::Error {
    hyper::http::Request::builder().uri("\n").body(()).unwrap_err()
}

fn stash() -> Stash {
    Stash::new(Auth::new("token").unwrap())
}

struct Store {
    blobs: Vec<(String, Vec<(String, String)>)>,
    created: usize,
    requests: Vec<(Method, String)>,
    broken_page: Option<usize>,
}

fn text(value: &str) -> Json {
    Json::Text(value.to_string())
}

fn entries_of(document: Json) -> Vec<(String, Json)> {
    match document {
        Json::Object(entries) => entries,
        _ => panic!("no map"),
    }
}

fn blob_document(id: &str, files: &[(String, String)]) -> Json {
    let segments = files
        .iter()
        .map(|(name, content)| {
            let fields = vec![
                ("filename".to_string(), text(name)),
                ("truncated".to_string(), Json::Bool(false)),
                ("content".to_string(), text(content)),
            ];
            (name.clone(), Json::Object(fields))
        })
        .collect();
    Json::Object(vec![
        ("url".to_string(), text("https://api.github.com/gists/x")),
        ("id".to_string(), text(id)),
        ("files".to_string(), Json::Object(segments)),
        ("public".to_string(), Json::Bool(false)),
    ])
}

impl Store {
    fn new() -> Store {
        Store { blobs: Vec::new(), created: 0, requests: Vec::new(), broken_page: None }
    }

    fn with_blobs(count: usize) -> Store {
        let mut store = Store::new();
        for _ in 0..count {
            store.create(Vec::new());
        }
        store
    }

    fn create(&mut self, files: Vec<(String, String)>) -> String {
        self.created += 1;
        let id = format!("blob{}", self.created);
        self.blobs.push((id.clone(), files));
        id
    }

    fn position(&self, id: &str) -> Option<usize> {
        self.blobs.iter().position(|blob| blob.0 == id)
    }

    fn patch(files: &mut Vec<(String, String)>, body: &[u8]) {
        let mut top = entries_of(Json::from_slice(body).unwrap());
        assert_eq!(top.len(), 1);
        let (key, segments) = top.pop().unwrap();
        assert_eq!(key, "files");
        for (name, value) in entries_of(segments) {
            let at = files.iter().position(|file| file.0 == name);
            match value {
                Json::Null => {
                    if let Some(at) = at {
                        files.remove(at);
                    }
                }
                segment => {
                    let mut fields = entries_of(segment);
                    assert_eq!(fields.len(), 1);
                    let content = match fields.pop().unwrap() {
                        (key, Json::Text(content)) if key == "content" => content,
                        _ => panic!("no content"),
                    };
                    match at {
                        Some(at) => files[at].1 = content,
                        None => files.push((name, content)),
                    }
                }
            }
        }
    }

    fn handle(&mut self, request: &Request) -> (u16, Vec<u8>) {
        check_headers(&request.headers);
        self.requests.push((request.method, request.path.clone()));
        let not_found = (404, b"{\"message\":\"Not Found\"}".to_vec());
        if request.path == "/gists" {
            assert_eq!(request.method, Method::Post);
            let mut files = Vec::new();
            Store::patch(&mut files, &request.body);
            let id = self.create(files.clone());
            return (201, blob_document(&id, &files).to_vec().unwrap());
        }
        if let Some(page) = request.path.strip_prefix("/gists?per_page=100&page=") {
            assert_eq!(request.method, Method::Get);
            assert!(request.body.is_empty());
            let page: usize = page.parse().unwrap();
            if self.broken_page == Some(page) {
                return (500, b"{\"message\":\"Server Error\"}".to_vec());
            }
            let listed = self
                .blobs
                .iter()
                .skip((page - 1) * 100)
                .take(100)
                .map(|blob| blob_document(&blob.0, &[]))
                .collect();
            return (200, Json::List(listed).to_vec().unwrap());
        }
        let id = request.path.strip_prefix("/gists/").unwrap();
        let at = match self.position(id) {
            Some(at) => at,
            None => return not_found,
        };
        match request.method {
            Method::Get => {
                assert!(request.body.is_empty());
                (200, blob_document(id, &self.blobs[at].1).to_vec().unwrap())
            }
            Method::Patch => {
                Store::patch(&mut self.blobs[at].1, &request.body);
                (200, blob_document(id, &self.blobs[at].1).to_vec().unwrap())
            }
            Method::Delete => {
                assert!(request.body.is_empty());
                self.blobs.remove(at);
                (204, Vec::new())
            }
            Method::Post => panic!("a post to an item"),
        }
    }
}

fn check_headers(headers: &[Header]) {
    let seen: Vec<(&str, String)> = headers
        .iter()
        .map(|header| {
            let value = match &header.value {
                HeaderContent::Text(text) => text.to_string(),
                HeaderContent::Credential(value) => value.to_str().unwrap().to_string(),
            };
            (header.name, value)
        })
        .collect();
    assert_eq!(
        seen,
        vec![
            ("user-agent", "octostash".to_string()),
            ("authorization", "Bearer token".to_string()),
            ("accept", "application/vnd.github+json".to_string()),
            ("x-github-api-version", "2022-11-28".to_string()),
        ]
    );
}

fn run(store: &mut Store, started: (Operation<'_>, Action)) -> Result<Outcome, StashError> {
    let (mut operation, mut action) = started;
    let mut body = Vec::new();
    loop {
        let reply = match action {
            Action::Send(request) => {
                let (status, bytes) = store.handle(&request);
                body = bytes;
                Reply::Status(status)
            }
            Action::ReadBody => Reply::Body(Slice(SliceInternal::Vec(std::mem::take(&mut body)))),
            Action::Done(result) => {
                assert!(operation.is_finished());
                return result;
            }
            Action::Idle => panic!("nothing to do"),
        };
        let next = operation.step(reply);
        operation = next.0;
        action = next.1;
    }
}

fn insert_into(store: &mut Store, stash: &Stash, value: &str) -> Result<String, StashError> {
    match run(store, stash.insert(value))? {
        Outcome::Id(id) => Ok(id),
        _ => panic!("no id"),
    }
}

fn get_from(store: &mut Store, stash: &Stash, id: &str) -> Result<String, StashError> {
    match run(store, stash.get(id))? {
        Outcome::Content(content) => Ok(content),
        _ => panic!("no content"),
    }
}

fn set_in(store: &mut Store, stash: &Stash, id: &str, value: &str) -> Result<(), StashError> {
    match run(store, stash.set(id, value))? {
        Outcome::Nothing => Ok(()),
        _ => panic!("something"),
    }
}

fn remove_from(store: &mut Store, stash: &Stash, id: &str) -> Result<(), StashError> {
    match run(store, stash.remove(id))? {
        Outcome::Nothing => Ok(()),
        _ => panic!("something"),
    }
}

struct Listing<'a> {
    ids: Ids<'a>,
    request: Option<Request>,
    body: Vec<Bytes>,
}

fn list(stash: &Stash) -> Listing<'_> {
    let (ids, request) = stash.ids();
    Listing { ids, request: Some(request), body: Vec::new() }
}

fn next_batch(store: &mut Store, listing: &mut Listing<'_>) -> Option<Result<IdsChunk, StashError>> {
    loop {
        let event = if !listing.ids.is_fetching() {
            Event::Pending
        } else if listing.ids.awaits_response() {
            let request = listing.request.take().unwrap();
            let (status, bytes) = store.handle(&request);
            let middle = bytes.len() / 2;
            listing.body = vec![
                Bytes::from(bytes[middle..].to_vec()),
                Bytes::from(bytes[..middle].to_vec()),
            ];
            Event::Status(status)
        } else {
            match listing.body.pop() {
                Some(fragment) => Event::Data { fragment, remaining: 0 },
                None => Event::End,
            }
        };
        let turn = listing.ids.poll_next(event);
        if turn.request.is_some() {
            assert!(listing.request.is_none());
            listing.request = turn.request;
        }
        match turn.item {
            Progress::Ready(item) => return item,
            Progress::Pending => panic!("nothing is pending"),
            Progress::Yield => {}
        }
    }
}

fn pages_asked(store: &Store) -> Vec<String> {
    store.requests.iter().map(|request| request.1.clone()).collect()
}

#[test]
fn insert() {
    let mut store = Store::new();
    let stash = stash();
    let id = insert_into(&mut store, &stash, "Hello, octostash!").unwrap();
    let value = get_from(&mut store, &stash, &id).unwrap();
    assert_eq!(value, "Hello, octostash!");
}

#[test]
fn set() {
    let mut store = Store::new();
    let stash = stash();
    let id = insert_into(&mut store, &stash, "Hello, octostash! Hello, octostash!").unwrap();
    set_in(&mut store, &stash, &id, "Hello, octostash!").unwrap();
    let value = get_from(&mut store, &stash, &id).unwrap();
    assert_eq!(value, "Hello, octostash!");
}

#[test]
fn remove() {
    let mut store = Store::new();
    let stash = stash();
    let id = insert_into(&mut store, &stash, "Hello, octostash!").unwrap();
    remove_from(&mut store, &stash, &id).unwrap();
    let value = get_from(&mut store, &stash, &id).unwrap_err();
    assert_eq!(value.status(), Some(404))
}

#[test]
fn clear() {
    let mut store = Store::with_blobs(120);
    let stash = stash();
    let mut listing = list(&stash);
    let mut found = Vec::new();
    while let Some(chunk) = next_batch(&mut store, &mut listing).transpose().unwrap() {
        found.extend(chunk.into_vec());
    }
    assert_eq!(found.len(), 120);
    for id in found {
        remove_from(&mut store, &stash, &id).unwrap();
    }
    assert!(next_batch(&mut store, &mut list(&stash)).is_none());
}

#[test]
fn set_clears_the_segments_that_are_no_longer_needed() {
    let mut store = Store::new();
    let stash = stash();
    let long = "abc".repeat(250000);
    let id = insert_into(&mut store, &stash, &long).unwrap();
    assert_eq!(store.blobs[0].1.len(), 3);
    assert_eq!(get_from(&mut store, &stash, &id).unwrap(), long);
    set_in(&mut store, &stash, &id, "short").unwrap();
    assert_eq!(store.blobs[0].1, vec![("_0".to_string(), "short".to_string())]);
    assert_eq!(get_from(&mut store, &stash, &id).unwrap(), "short");
    set_in(&mut store, &stash, &id, &long).unwrap();
    assert_eq!(store.blobs[0].1.len(), 3);
    assert_eq!(get_from(&mut store, &stash, &id).unwrap(), long);
    set_in(&mut store, &stash, &id, "").unwrap();
    assert!(store.blobs[0].1.is_empty());
    assert_eq!(get_from(&mut store, &stash, &id).unwrap(), "");
}

#[test]
fn set_reads_before_it_writes() {
    let mut store = Store::new();
    let stash = stash();
    let id = insert_into(&mut store, &stash, "one").unwrap();
    store.requests.clear();
    set_in(&mut store, &stash, &id, "two").unwrap();
    let path = format!("/gists/{}", id);
    assert_eq!(store.requests, vec![(Method::Get, path.clone()), (Method::Patch, path)]);
}

#[test]
fn the_requests_of_the_operations() {
    let stash = stash();
    match stash.insert("hi").1 {
        Action::Send(request) => {
            assert_eq!(request.method, Method::Post);
            assert_eq!(request.path, "/gists");
            assert_eq!(request.body, b"{\"files\":{\"_0\":{\"content\":\"hi\"}}}".to_vec());
            check_headers(&request.headers);
        }
        _ => panic!("no request"),
    }
    match stash.get("abc").1 {
        Action::Send(request) => {
            assert_eq!((request.method, request.path.as_str()), (Method::Get, "/gists/abc"));
            assert!(request.body.is_empty());
        }
        _ => panic!("no request"),
    }
    match stash.set("abc", "hi").1 {
        Action::Send(request) => {
            assert_eq!((request.method, request.path.as_str()), (Method::Get, "/gists/abc"));
            assert!(request.body.is_empty());
        }
        _ => panic!("no request"),
    }
    match stash.remove("abc").1 {
        Action::Send(request) => {
            assert_eq!((request.method, request.path.as_str()), (Method::Delete, "/gists/abc"));
            assert!(request.body.is_empty());
        }
        _ => panic!("no request"),
    }
    let (fetch, request) = stash.ids_chunk_future(7);
    assert!(fetch.awaits_response());
    assert_eq!((request.method, request.path.as_str()), (Method::Get, "/gists?per_page=100&page=7"));
    assert_eq!(stash.ids().1.path, "/gists?per_page=100&page=1");
}

#[test]
fn an_update_writes_over_what_the_store_holds() {
    let stash = stash();
    let (operation, _) = stash.set("abc", "hi");
    let (operation, action) = operation.step(Reply::Status(200));
    assert!(matches!(action, Action::ReadBody));
    let held = b"{\"files\":{\"_0\":{\"content\":\"a\"},\"_2\":{\"content\":\"c\"},\"_1\":{\"content\":\"b\"}}}";
    let (operation, action) = operation.step(Reply::Body(Slice(SliceInternal::Vec(held.to_vec()))));
    match action {
        Action::Send(request) => {
            assert_eq!((request.method, request.path.as_str()), (Method::Patch, "/gists/abc"));
            assert_eq!(
                request.body,
                b"{\"files\":{\"_0\":{\"content\":\"hi\"},\"_1\":null,\"_2\":null}}".to_vec()
            );
            check_headers(&request.headers);
        }
        _ => panic!("no request"),
    }
    let (operation, action) = operation.step(Reply::Status(200));
    assert!(matches!(action, Action::Done(Ok(Outcome::Nothing))));
    assert!(operation.is_finished());
}

#[test]
fn an_unexpected_status_ends_the_operation() {
    let stash = stash();
    let starts = vec![stash.insert("hi"), stash.get("abc"), stash.set("abc", "hi"), stash.remove("abc")];
    for (operation, _) in starts {
        let (operation, action) = operation.step(Reply::Status(404));
        match action {
            Action::Done(Err(error)) => {
                assert_eq!(error.status(), Some(404));
                assert!(matches!(error.internal(), Internal::Status(404)));
            }
            _ => panic!("went on"),
        }
        assert!(operation.is_finished());
        let (operation, action) = operation.step(Reply::Status(200));
        assert!(matches!(action, Action::Idle));
        let (operation, action) = operation.step(Reply::Body(Slice(SliceInternal::Empty)));
        assert!(matches!(action, Action::Idle));
        assert!(operation.is_finished());
    }
}

#[test]
fn each_operation_has_its_own_status() {
    let stash = stash();
    for status in [200u16, 201, 204] {
        let (_, action) = stash.insert("hi").0.step(Reply::Status(status));
        assert_eq!(matches!(action, Action::ReadBody), status == 201);
        let (_, action) = stash.get("abc").0.step(Reply::Status(status));
        assert_eq!(matches!(action, Action::ReadBody), status == 200);
        let (_, action) = stash.set("abc", "hi").0.step(Reply::Status(status));
        assert_eq!(matches!(action, Action::ReadBody), status == 200);
        let (_, action) = stash.remove("abc").0.step(Reply::Status(status));
        assert_eq!(matches!(action, Action::Done(Ok(Outcome::Nothing))), status == 204);
    }
}

#[test]
fn an_unexpected_status_on_the_write_of_an_update() {
    let stash = stash();
    let (operation, _) = stash.set("abc", "hi");
    let (operation, _) = operation.step(Reply::Status(200));
    let body = b"{\"files\":{}}".to_vec();
    let (operation, action) = operation.step(Reply::Body(Slice(SliceInternal::Vec(body))));
    assert!(matches!(action, Action::Send(_)));
    let (operation, action) = operation.step(Reply::Status(409));
    match action {
        Action::Done(Err(error)) => assert_eq!(error.status(), Some(409)),
        _ => panic!("went on"),
    }
    assert!(operation.is_finished());
}

#[test]
fn failures_of_the_executor_end_the_operation() {
    let stash = stash();
    let (operation, action) = stash.get("abc").0.step(Reply::Rejected(request_error()));
    match action {
        Action::Done(Err(error)) => {
            assert!(matches!(error.internal(), Internal::Http(_)));
            assert_eq!(error.status(), None);
        }
        _ => panic!("went on"),
    }
    assert!(operation.is_finished());
    let (operation, action) = stash.get("abc").0.step(Reply::Failed(transport_error()));
    assert!(matches!(action, Action::Done(Err(_))));
    assert!(operation.is_finished());
    let (operation, _) = stash.get("abc").0.step(Reply::Status(200));
    let (operation, action) = operation.step(Reply::Failed(transport_error()));
    match action {
        Action::Done(Err(error)) => assert!(matches!(error.internal(), Internal::Hyper(_))),
        _ => panic!("went on"),
    }
    assert!(operation.is_finished());
}

#[test]
fn a_body_of_another_shape_ends_the_operation() {
    let stash = stash();
    let starts = vec![
        (stash.insert("hi").0, 201),
        (stash.get("abc").0, 200),
        (stash.set("abc", "hi").0, 200),
    ];
    for (operation, status) in starts {
        let (operation, _) = operation.step(Reply::Status(status));
        let body = b"{\"message\":\"?\"}".to_vec();
        let (operation, action) = operation.step(Reply::Body(Slice(SliceInternal::Vec(body))));
        match action {
            Action::Done(Err(error)) => assert!(matches!(error.internal(), Internal::Json(_))),
            _ => panic!("went on"),
        }
        assert!(operation.is_finished());
    }
}

#[test]
fn a_reply_that_was_not_asked_for_changes_nothing() {
    let stash = stash();
    let (operation, action) = stash.get("abc").0.step(Reply::Body(Slice(SliceInternal::Empty)));
    assert!(matches!(action, Action::Idle));
    assert!(!operation.is_finished());
    let (operation, _) = operation.step(Reply::Status(200));
    let (operation, action) = operation.step(Reply::Status(200));
    assert!(matches!(action, Action::Idle));
    let (operation, action) = operation.step(Reply::Rejected(request_error()));
    assert!(matches!(action, Action::Idle));
    let body = b"{\"files\":{\"_0\":{\"content\":\"x\"}}}".to_vec();
    let (_, action) = operation.step(Reply::Body(Slice(SliceInternal::Vec(body))));
    match action {
        Action::Done(Ok(Outcome::Content(content))) => assert_eq!(content, "x"),
        _ => panic!("no content"),
    }
}

#[test]
fn a_listing_of_250_ids() {
    let mut store = Store::with_blobs(250);
    let stash = stash();
    let mut listing = list(&stash);
    let mut lengths = Vec::new();
    let mut found = Vec::new();
    while let Some(chunk) = next_batch(&mut store, &mut listing) {
        let chunk = chunk.unwrap();
        lengths.push(chunk.len());
        assert_eq!(chunk.as_slice().len(), chunk.len());
        found.extend(chunk.into_vec());
    }
    assert_eq!(lengths, vec![100, 100, 50]);
    let expected: Vec<String> = (1..=250).map(|index| format!("blob{}", index)).collect();
    assert_eq!(found, expected);
    assert_eq!(
        pages_asked(&store),
        vec![
            "/gists?per_page=100&page=1",
            "/gists?per_page=100&page=2",
            "/gists?per_page=100&page=3"
        ]
    );
    assert!(next_batch(&mut store, &mut listing).is_none());
    assert!(next_batch(&mut store, &mut listing).is_none());
    assert_eq!(store.requests.len(), 3);
}

#[test]
fn a_listing_of_100_ids() {
    let mut store = Store::with_blobs(100);
    let stash = stash();
    let mut listing = list(&stash);
    assert_eq!(next_batch(&mut store, &mut listing).unwrap().unwrap().len(), IDS_CHUNK_SIZE);
    assert!(next_batch(&mut store, &mut listing).is_none());
    assert_eq!(
        pages_asked(&store),
        vec!["/gists?per_page=100&page=1", "/gists?per_page=100&page=2"]
    );
    assert!(next_batch(&mut store, &mut listing).is_none());
    assert_eq!(store.requests.len(), 2);
}

#[test]
fn a_listing_of_no_ids() {
    let mut store = Store::new();
    let stash = stash();
    let mut listing = list(&stash);
    assert!(next_batch(&mut store, &mut listing).is_none());
    assert!(next_batch(&mut store, &mut listing).is_none());
    assert_eq!(pages_asked(&store), vec!["/gists?per_page=100&page=1"]);
}

#[test]
fn a_failure_in_the_middle_of_a_listing() {
    let mut store = Store::with_blobs(250);
    store.broken_page = Some(2);
    let stash = stash();
    let mut listing = list(&stash);
    assert_eq!(next_batch(&mut store, &mut listing).unwrap().unwrap().len(), 100);
    let failure = next_batch(&mut store, &mut listing).unwrap().err().unwrap();
    assert_eq!(failure.status(), Some(500));
    assert!(next_batch(&mut store, &mut listing).is_none());
    assert!(next_batch(&mut store, &mut listing).is_none());
    assert_eq!(store.requests.len(), 2);
}

#[test]
fn a_request_for_a_page_that_cannot_be_built() {
    let stash = stash();
    let (mut ids, _) = stash.ids();
    ids.reject(request_error());
    assert!(!ids.is_fetching());
    let turn = ids.poll_next(Event::Pending);
    assert!(turn.request.is_none());
    match turn.item {
        Progress::Ready(Some(Err(error))) => assert!(matches!(error.internal(), Internal::Http(_))),
        _ => panic!("no failure"),
    }
    let turn = ids.poll_next(Event::Pending);
    assert!(matches!(turn.item, Progress::Ready(None)));
    ids.reject(request_error());
    assert!(matches!(ids.poll_next(Event::Status(200)).item, Progress::Ready(None)));
}

#[test]
fn a_listing_waits_while_nothing_comes() {
    let stash = stash();
    let (mut ids, _) = stash.ids();
    assert!(ids.awaits_response());
    assert!(matches!(ids.poll_next(Event::Pending).item, Progress::Pending));
    assert!(matches!(ids.poll_next(Event::End).item, Progress::Pending));
    assert!(ids.awaits_response());
    let turn = ids.poll_next(Event::Status(200));
    assert!(matches!(turn.item, Progress::Yield));
    assert!(turn.request.is_none());
    assert!(ids.is_fetching() && !ids.awaits_response());
    assert!(matches!(ids.poll_next(Event::Pending).item, Progress::Pending));
    assert!(matches!(ids.poll_next(Event::Status(500)).item, Progress::Pending));
    let fragment = Bytes::from_static(b"[{\"id\":\"only\"}]");
    assert!(matches!(ids.poll_next(Event::Data { fragment, remaining: 0 }).item, Progress::Yield));
    match ids.poll_next(Event::End).item {
        Progress::Ready(Some(Ok(chunk))) => assert_eq!(chunk.as_slice(), ["only".to_string()]),
        _ => panic!("no batch"),
    }
    assert!(!ids.is_fetching());
}

#[test]
fn a_page_fetch_step_by_step() {
    let mut fetch = IdsChunkFuture::<2>::new();
    assert!(fetch.awaits_response());
    assert!(matches!(fetch.poll(Event::Pending), Progress::Pending));
    assert!(matches!(fetch.poll(Event::Status(200)), Progress::Yield));
    assert!(!fetch.awaits_response());
    let fragment = Bytes::from_static(b"[{\"id\":\"a\"},");
    assert!(matches!(fetch.poll(Event::Data { fragment, remaining: 10 }), Progress::Yield));
    let fragment = Bytes::from_static(b"{\"id\":\"b\"}]");
    assert!(matches!(fetch.poll(Event::Data { fragment, remaining: 0 }), Progress::Yield));
    match fetch.poll(Event::End) {
        Progress::Ready(Ok(ids)) => assert_eq!(ids, vec!["a".to_string(), "b".to_string()]),
        _ => panic!("no ids"),
    }
}

#[test]
fn a_page_fetch_that_fails() {
    let mut fetch = IdsChunkFuture::<2>::new();
    match fetch.poll(Event::Status(403)) {
        Progress::Ready(Err(error)) => assert_eq!(error.status(), Some(403)),
        _ => panic!("no failure"),
    }
    let mut fetch = IdsChunkFuture::<2>::new();
    match fetch.poll(Event::Failed(transport_error())) {
        Progress::Ready(Err(error)) => assert!(matches!(error.internal(), Internal::Hyper(_))),
        _ => panic!("no failure"),
    }
    let mut fetch = IdsChunkFuture::<2>::new();
    fetch.poll(Event::Status(200));
    match fetch.poll(Event::Failed(transport_error())) {
        Progress::Ready(Err(error)) => assert!(matches!(error.internal(), Internal::Hyper(_))),
        _ => panic!("no failure"),
    }
    let mut fetch = IdsChunkFuture::<2>::new();
    fetch.poll(Event::Status(200));
    let fragment = Bytes::from_static(b"[{\"id\":\"a\"},{\"id\":\"b\"},{\"id\":\"c\"}]");
    fetch.poll(Event::Data { fragment, remaining: 0 });
    match fetch.poll(Event::End) {
        Progress::Ready(Err(error)) => assert!(matches!(error.internal(), Internal::Json(_))),
        _ => panic!("no failure"),
    }
}

#[test]
fn a_single_fragment_is_handed_out_as_it_came() {
    let fragment = Bytes::from(b"one fragment".to_vec());
    let address = fragment.as_ptr();
    let mut future = SliceFuture::new();
    assert!(matches!(future.poll(BodyEvent::Data { fragment, remaining: 0 }), Progress::Yield));
    match future.poll(BodyEvent::End) {
        Progress::Ready(Ok(slice)) => {
            assert_eq!(slice.as_slice(), b"one fragment");
            assert_eq!(slice.as_slice().as_ptr(), address);
            match slice.0 {
                SliceInternal::Bytes(held) => assert_eq!(held.as_ptr(), address),
                _ => panic!("the fragment was copied"),
            }
        }
        _ => panic!("no body"),
    }
}

#[test]
fn fragments_are_joined_in_order() {
    let mut future = SliceFuture::new();
    for (piece, remaining) in [("ab", 1u64 << 40), ("", 7), ("cde", 0), ("f", 0)] {
        let fragment = Bytes::from(piece.as_bytes().to_vec());
        assert!(matches!(future.poll(BodyEvent::Pending), Progress::Pending));
        assert!(matches!(future.poll(BodyEvent::Data { fragment, remaining }), Progress::Yield));
    }
    match future.poll(BodyEvent::End) {
        Progress::Ready(Ok(slice)) => {
            assert_eq!(slice.as_slice(), b"abcdef");
            assert!(matches!(slice.0, SliceInternal::Vec(_)));
        }
        _ => panic!("no body"),
    }
    match future.poll(BodyEvent::End) {
        Progress::Ready(Ok(slice)) => assert!(slice.as_slice().is_empty()),
        _ => panic!("no body"),
    }
}

#[test]
fn the_room_for_the_second_fragment_is_capped() {
    let mut future = SliceFuture::new();
    future.poll(BodyEvent::Data { fragment: Bytes::from_static(b"abc"), remaining: u64::MAX });
    future.poll(BodyEvent::Data { fragment: Bytes::from_static(b"de"), remaining: u64::MAX });
    match future.poll(BodyEvent::End) {
        Progress::Ready(Ok(Slice(SliceInternal::Vec(vec)))) => {
            assert_eq!(vec, b"abcde".to_vec());
            assert!(vec.capacity() >= 5 + 16384);
            assert!(vec.capacity() < 5 + 2 * 16384);
        }
        _ => panic!("no copy"),
    }
    let mut future = SliceFuture::new();
    future.poll(BodyEvent::Data { fragment: Bytes::from_static(b"abc"), remaining: 10 });
    future.poll(BodyEvent::Data { fragment: Bytes::from_static(b"de"), remaining: 10 });
    match future.poll(BodyEvent::End) {
        Progress::Ready(Ok(Slice(SliceInternal::Vec(vec)))) => assert!(vec.capacity() >= 15),
        _ => panic!("no copy"),
    }
}

#[test]
fn a_body_without_fragments_is_empty() {
    let mut future = SliceFuture::new();
    assert!(matches!(future.poll(BodyEvent::Pending), Progress::Pending));
    match future.poll(BodyEvent::End) {
        Progress::Ready(Ok(slice)) => {
            assert!(slice.as_slice().is_empty());
            assert!(matches!(slice.0, SliceInternal::Empty));
        }
        _ => panic!("no body"),
    }
}

#[test]
fn a_failure_of_the_body_is_handed_on() {
    let mut future = SliceFuture::new();
    future.poll(BodyEvent::Data { fragment: Bytes::from_static(b"abc"), remaining: 0 });
    let error = transport_error();
    let message = error.to_string();
    match future.poll(BodyEvent::Failed(error)) {
        Progress::Ready(Err(error)) => assert_eq!(error.to_string(), message),
        _ => panic!("no failure"),
    }
}

#[test]
fn a_token_becomes_a_bearer_credential() {
    let auth = Auth::new("secret").unwrap();
    assert_eq!(auth.header_value().as_bytes(), b"Bearer secret");
    assert_eq!(auth.clone().into_header_value().to_str().unwrap(), "Bearer secret");
    let stash = Stash::new(auth);
    assert_eq!(stash.auth().header_value().as_bytes(), b"Bearer secret");
    assert_eq!(Auth::new("").unwrap().header_value().as_bytes(), b"Bearer ");
    assert!(Auth::new("t\u{e9}\t").is_ok());
}

#[test]
fn a_token_that_no_header_can_hold_is_refused() {
    assert!(Auth::new("two\nlines").is_err());
    assert!(Auth::new("\u{7f}").is_err());
    assert!(Auth::new("nul\0").is_err());
}

#[test]
fn errors_tell_their_status() {
    assert_eq!(StashError::from_status(404).status(), Some(404));
    assert_eq!(StashError::from_http(request_error()).status(), None);
    assert_eq!(StashError::from_hyper(transport_error()).status(), None);
    assert!(matches!(StashError::from_status(500).internal(), Internal::Status(500)));
}
