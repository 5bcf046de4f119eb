use flow::engine::clipboard::{
    handle_incoming_clipboard_chunk, classify_clipboard_change, file_fits, portable_name, clipboard_is_file_list, decode_completed, hash_clipboard_data,
    offer_chunks, offered_text_chunks, remember_written, text_fulfillment, ClipboardChange, DecodedClipboard,
    CLIPBOARD_CHUNK_SIZE,
};
use flow::engine::{route_clipboard, ClipboardAccumulator, ClipboardRoute, OfferedData};
use flow::hardware::{check_and_consume_ignore_hash, push_ignore_hash, FulfillmentPayload, PromiseContext};
use flow::network::protocol::ClipboardPayload;
use flow::paths::{app_dir_in, get_db_path, get_log_path};

#[test]
fn test_hash_clipboard_data_determinism() {
    let text = "hello flow clipboard!";
    let h1 = hash_clipboard_data(text);
    let h2 = hash_clipboard_data(text);
    assert_eq!(h1, h2);
}

#[test]
fn test_hash_clipboard_data_different_inputs() {
    let text1 = "hello flow clipboard!";
    let text2 = "hello flow clipboard!!";
    let h1 = hash_clipboard_data(text1);
    let h2 = hash_clipboard_data(text2);
    assert_ne!(h1, h2);
}

#[test]
fn test_clipboard_loopback_global_ignore_matching() {
    let sample_text = "test global loopback prevention payload";
    let data_hash = hash_clipboard_data(sample_text);
    let mut queue: Vec<u64> = Vec::new();

    // Push the hash to simulate an incoming payload completion
    push_ignore_hash(&mut queue, data_hash);

    // Simulating the check that would be done in ClipboardListener callback
    let is_from_network = check_and_consume_ignore_hash(&mut queue, data_hash);

    assert!(is_from_network, "Hash should be recognized as originating from the network via global ignore queue");

    // Verify that the hash was removed after matching
    let checked_again = check_and_consume_ignore_hash(&mut queue, data_hash);
    assert!(!checked_again, "Hash should be removed from global ignore list after matching");
}

#[test]
fn written_content_is_an_echo_once() {
    let mut q: Vec<u64> = Vec::new();
    remember_written(&mut q, "from the network");
    assert!(matches!(classify_clipboard_change("from the network", 16, &mut q), ClipboardChange::Echo));
    assert!(matches!(classify_clipboard_change("from the network", 16, &mut q), ClipboardChange::Send));
    remember_written(&mut q, "");
    remember_written(&mut q, "unknown format");
    assert!(q.is_empty());
}

#[test]
fn clipboard_changes_are_classified() {
    let mut q: Vec<u64> = Vec::new();
    assert!(matches!(classify_clipboard_change("", 0, &mut q), ClipboardChange::Ignore));
    assert!(matches!(classify_clipboard_change("unknown format", 14, &mut q), ClipboardChange::Ignore));
    match classify_clipboard_change("file:///tmp/a", 5 * 1024 * 1024 + 1, &mut q) {
        ClipboardChange::Offer { format, size } => {
            assert_eq!(format, "files");
            assert_eq!(size, 5 * 1024 * 1024 + 1);
        }
        _ => panic!("expected an offer"),
    }
    match classify_clipboard_change("big text", 6 * 1024 * 1024, &mut q) {
        ClipboardChange::Offer { format, .. } => assert_eq!(format, "text"),
        _ => panic!("expected an offer"),
    }
    assert!(matches!(classify_clipboard_change("small", 5 * 1024 * 1024, &mut q), ClipboardChange::Send));
    assert!(clipboard_is_file_list("/home/x"));
    assert!(clipboard_is_file_list("file://x"));
    assert!(!clipboard_is_file_list("file:/x"));
}

fn chunk_parts(p: &ClipboardPayload) -> (String, u64, bool, Vec<u8>) {
    match p {
        ClipboardPayload::Chunk { id, chunk_index, is_last, data } => (id.clone(), *chunk_index, *is_last, data.clone()),
        _ => panic!("not a chunk"),
    }
}

#[test]
fn content_is_cut_into_chunks() {
    assert!(offer_chunks("id", &[]).is_empty());
    let bytes: Vec<u8> = (0..(2 * CLIPBOARD_CHUNK_SIZE + 10)).map(|i| (i % 251) as u8).collect();
    let chunks = offer_chunks("id", &bytes);
    assert_eq!(chunks.len(), 3);
    let parts: Vec<_> = chunks.iter().map(chunk_parts).collect();
    assert_eq!(parts[0].1, 0);
    assert_eq!(parts[2].1, 2);
    assert!(!parts[0].2 && !parts[1].2 && parts[2].2);
    assert_eq!(parts[0].3.len(), CLIPBOARD_CHUNK_SIZE);
    assert_eq!(parts[2].3.len(), 10);
    let joined: Vec<u8> = parts.iter().flat_map(|p| p.3.clone()).collect();
    assert_eq!(joined, bytes);
    let exact = vec![1u8; CLIPBOARD_CHUNK_SIZE];
    let c = offer_chunks("x", &exact);
    assert_eq!(c.len(), 1);
    assert!(chunk_parts(&c[0]).2);
}

fn promise(id: &str, awaiting: bool) -> Option<PromiseContext> {
    Some(PromiseContext { uuid: id.to_string(), format: "text".to_string(), size: 8, awaiting_payload: awaiting })
}

#[test]
fn chunks_reassemble_offered_text() {
    let text = "héllo wörld, a clipboard";
    let chunks = offered_text_chunks("p1", text);
    let active = promise("p1", true);
    let mut acc: Option<ClipboardAccumulator> = None;
    let mut done = None;
    for c in &chunks {
        let (id, _, last, data) = chunk_parts(c);
        let out = handle_incoming_clipboard_chunk(&mut acc, &active, &id, last, &data);
        if last {
            assert_eq!(out.progress, Some(0));
            done = out.completed;
        }
    }
    let (format, bytes) = done.unwrap();
    assert_eq!(format, "text");
    match text_fulfillment(decode_completed(&format, &bytes)) {
        Some(FulfillmentPayload::Text(t)) => assert_eq!(t, text),
        _ => panic!("text did not come back"),
    }
    assert!(acc.is_none());
}

#[test]
fn chunk_progress_is_reported() {
    let active = promise("p", true);
    let mut acc: Option<ClipboardAccumulator> = None;
    let out = handle_incoming_clipboard_chunk(&mut acc, &active, "p", false, &[1, 2]);
    assert_eq!(out.progress, Some(25));
    let out = handle_incoming_clipboard_chunk(&mut acc, &active, "p", false, &[1, 2, 3, 4, 5, 6, 7, 8, 9, 10]);
    assert_eq!(out.progress, Some(100));
    assert_eq!(acc.as_ref().unwrap().buffer.len(), 12);
    // Chunks nobody waits for are dropped.
    let out = handle_incoming_clipboard_chunk(&mut acc, &promise("p", false), "p", true, &[1]);
    assert!(out.completed.is_none() && out.progress.is_none());
    let out = handle_incoming_clipboard_chunk(&mut acc, &active, "other", true, &[1]);
    assert!(out.completed.is_none());
    // Unknown size reports only the start.
    let unsized_promise = Some(PromiseContext { uuid: "q".to_string(), format: "files".to_string(), size: 0, awaiting_payload: true });
    let mut acc2: Option<ClipboardAccumulator> = None;
    let out = handle_incoming_clipboard_chunk(&mut acc2, &unsized_promise, "q", false, &[1]);
    assert_eq!(out.progress, Some(1));
    let out = handle_incoming_clipboard_chunk(&mut acc2, &unsized_promise, "q", false, &[1]);
    assert_eq!(out.progress, None);
    let out = handle_incoming_clipboard_chunk(&mut acc2, &unsized_promise, "q", true, &[]);
    let (f, b) = out.completed.unwrap();
    assert_eq!(f, "files");
    assert_eq!(b, vec![1, 1]);
    assert!(matches!(decode_completed(&f, &b), DecodedClipboard::Files));
}

#[test]
fn invalid_completions_are_refused() {
    assert!(matches!(decode_completed("text", &[0xff, 0xfe]), DecodedClipboard::Invalid));
    assert!(matches!(decode_completed("image", b"abc"), DecodedClipboard::Invalid));
    assert!(text_fulfillment(DecodedClipboard::Files).is_none());
}

#[test]
fn clipboard_traffic_is_routed() {
    let offered = Some(OfferedData { id: "o".to_string(), format: "text".to_string(), data: "d".to_string() });
    let r = route_clipboard(&ClipboardPayload::Request { id: "o".to_string() }, &offered, true);
    assert!(matches!(r.route, ClipboardRoute::Serve) && r.forward);
    let r = route_clipboard(&ClipboardPayload::Request { id: "z".to_string() }, &offered, false);
    assert!(matches!(r.route, ClipboardRoute::Ignore) && !r.forward);
    let r = route_clipboard(&ClipboardPayload::Text { text: "t".to_string() }, &None, true);
    assert!(matches!(r.route, ClipboardRoute::WriteClipboard) && !r.forward);
    let r = route_clipboard(
        &ClipboardPayload::Chunk { id: "c".to_string(), chunk_index: 0, is_last: true, data: vec![] },
        &None,
        true,
    );
    assert!(matches!(r.route, ClipboardRoute::Accumulate) && r.forward);
    let r = route_clipboard(&ClipboardPayload::Offer { id: "c".to_string(), size: 1, format: "text".to_string() }, &None, false);
    assert!(matches!(r.route, ClipboardRoute::Promise));
}

#[test]
fn files_live_in_the_application_directory() {
    assert_eq!(get_db_path("/home/u/.flow"), "/home/u/.flow/flow.db");
    assert_eq!(get_log_path("/home/u/.flow/"), "/home/u/.flow/flow.log");
    assert_eq!(app_dir_in(Some("/home/u")), "/home/u/.flow");
    assert_eq!(app_dir_in(None), ".flow");
}

#[test]
fn file_transfer_rules() {
    assert!(file_fits(50 * 1024 * 1024));
    assert!(!file_fits(50 * 1024 * 1024 + 1));
    assert_eq!(portable_name("dir\\sub\\a.txt"), "dir/sub/a.txt");
    assert_eq!(portable_name("plain"), "plain");
}
