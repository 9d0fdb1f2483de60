use ipc_chan::protocol::{check_reply, frame_text, reply_frame};
use ipc_chan::Config;

// The endpoints talk over zmq's in-process transport, named after the
// configured port, so that the tests need no network.
fn endpoints(port: usize) -> (zmq::Context, zmq::Socket, zmq::Socket, zmq::Socket) {
    let cfg = Config { host: "127.0.0.1".to_string(), port };
    let address = cfg.bind_address().replace("tcp://*:", "inproc://chan-");
    let ctx = zmq::Context::new();
    let sink = ctx.socket(zmq::REP).unwrap();
    sink.bind(&address).unwrap();
    let source0 = ctx.socket(zmq::REQ).unwrap();
    source0.connect(&address).unwrap();
    let source1 = ctx.socket(zmq::REQ).unwrap();
    source1.connect(&address).unwrap();
    (ctx, sink, source0, source1)
}

fn request(source: &zmq::Socket, json: &str) {
    source.send(json, 0).unwrap();
}

fn serve(sink: &zmq::Socket) -> String {
    let text = frame_text(sink.recv_string(0).unwrap()).unwrap();
    sink.send(reply_frame(true).unwrap().as_str(), 0).unwrap();
    text
}

fn acknowledged(source: &zmq::Socket) -> bool {
    check_reply(source.recv_string(0).unwrap()).is_ok()
}

#[test]
fn hello_round_trip() {
    let (_ctx, sink, source, _other) = endpoints(11011);
    request(&source, &serde_json::to_string("hello").unwrap());
    let text = serve(&sink);
    let got: String = serde_json::from_str(&text).unwrap();
    assert_eq!(got, "hello");
    assert!(acknowledged(&source));

    request(&source, &serde_json::to_string(&("x", 42usize)).unwrap());
    let text = serve(&sink);
    let got: (String, usize) = serde_json::from_str(&text).unwrap();
    assert_eq!(got, ("x".to_string(), 42));
    assert!(acknowledged(&source));
}

#[test]
fn two_sources_one_sink() {
    let (_ctx, sink, source0, source1) = endpoints(11012);
    request(&source0, &serde_json::to_string("Hello World! 0").unwrap());
    request(&source1, &serde_json::to_string("Hello World! 1").unwrap());
    let mut got = vec![serve(&sink), serve(&sink)];
    assert!(acknowledged(&source0));
    assert!(acknowledged(&source1));
    got.sort();
    assert_eq!(got, vec!["\"Hello World! 0\"", "\"Hello World! 1\""]);

    request(&source0, &serde_json::to_string(&("Hello World! 2", 42usize)).unwrap());
    let text = serve(&sink);
    let msg: (String, usize) = serde_json::from_str(&text).unwrap();
    assert_eq!(msg, ("Hello World! 2".to_string(), 42));
    assert!(acknowledged(&source0));
}

#[test]
fn refused_request_releases_source() {
    let (_ctx, sink, source, _other) = endpoints(11013);
    request(&source, &serde_json::to_string("not a number").unwrap());
    let text = frame_text(sink.recv_string(0).unwrap()).unwrap();
    let decoded = serde_json::from_str::<u32>(&text).is_ok();
    assert!(!decoded);
    sink.send(reply_frame(decoded).unwrap().as_str(), 0).unwrap();
    assert!(!acknowledged(&source));
}
