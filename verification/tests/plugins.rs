use std::sync::Arc;

use stream_httparse::{Headers, Method};
use tunneload::http::{internal_error_response, Request, Response};
use tunneload::plugins::acceptor::{AcceptorMessage, AcceptorQueueReceiver, PluginDashboard};
use tunneload::plugins::action::{
    apply_req_ops, apply_resp_ops, interpret_return, response_size, MiddlewareOp, PluginReturn,
};
use tunneload::plugins::loader::{plugin_name_of, Loader};
use tunneload::util::webserver::Webserver;

#[test]
fn queue_peek_then_receive() {
    let (tx, rx) = std::sync::mpsc::channel();
    let mut queue = AcceptorQueueReceiver::new(rx);
    assert_eq!(true, queue.peek().is_none());
    assert_eq!(true, queue.try_recv().is_none());

    tx.send(AcceptorMessage { id: 1, data: vec![1] }).unwrap();
    tx.send(AcceptorMessage { id: 2, data: vec![2] }).unwrap();

    assert_eq!(1, queue.peek().unwrap().id);
    assert_eq!(1, queue.peek().unwrap().id);
    let first = queue.try_recv().unwrap();
    assert_eq!(1, first.id);
    assert_eq!(vec![1], first.data);
    assert_eq!(2, queue.try_recv().unwrap().id);
    assert_eq!(true, queue.try_recv().is_none());
}

#[test]
fn plugin_changes_request_and_response() {
    let mut req = Request::new("HTTP/1.1", Method::GET, "/old", Headers::new(), b"body");
    let ops = vec![
        MiddlewareOp::SetPath("/new".to_owned()),
        MiddlewareOp::SetHeader("X-A".to_owned(), "1".to_owned()),
        MiddlewareOp::SetHeader("x-a".to_owned(), "2".to_owned()),
        MiddlewareOp::SetBody(vec![9, 9]),
    ];
    apply_req_ops(&mut req, &ops);
    assert_eq!("/new", req.path());
    assert_eq!(&[9u8, 9u8][..], req.body());
    assert_eq!(1, req.headers().get_header_count());
    assert_eq!("2", req.headers().get("X-A").unwrap().to_string());

    let mut resp = Response::new("HTTP/1.1", 200, Headers::new(), Vec::new());
    apply_resp_ops(&mut resp, &ops);
    assert_eq!(&[9u8, 9u8][..], resp.body());
    assert_eq!(2, resp.headers().get_header_count());
    assert_eq!("2", resp.headers().get("X-A").unwrap().to_string());
    assert_eq!("2", resp.headers().get("content-length").unwrap().to_string());
}

#[test]
fn plugin_return_values() {
    assert_eq!(PluginReturn::Continue, interpret_return(-1));
    assert_eq!(PluginReturn::Respond(64), interpret_return(64));
    assert_eq!(PluginReturn::Unexpected(0), interpret_return(0));
    assert_eq!(PluginReturn::Unexpected(-7), interpret_return(-7));
    assert_eq!(0x0102_0304, response_size(&[1, 2, 3, 4]));
}

#[test]
fn error_response() {
    let resp = internal_error_response();
    assert_eq!("HTTP/1.1", resp.protocol);
    assert_eq!(500, resp.status_code);
    assert_eq!(0, resp.headers().get_header_count());
    assert_eq!(0, resp.body().len());
}

#[test]
fn plugin_file_names() {
    assert_eq!(Some("auth".to_owned()), plugin_name_of("auth.wasm"));
    assert_eq!(None, plugin_name_of("auth.wasm.bak"));
    assert_eq!(None, plugin_name_of("auth"));
    assert_eq!(None, plugin_name_of("auth.txt"));
    let loader = Loader::new("plugins/".to_owned());
    assert_eq!("plugins/", loader.path());
}

#[test]
fn dashboard_and_webserver() {
    assert_eq!("Plugin", PluginDashboard {}.get_type());
    let server = Webserver::new("0.0.0.0:8080".to_owned(), Arc::new(5u32));
    assert_eq!("0.0.0.0:8080", server.bind_addr());
    assert_eq!(5, *server.handler());
}
