use fastfileocr_core::engine::{start_step, StartAction, StartCheck};
use fastfileocr_core::engine::{failure, is_unavailable, log_file, read_reply, server_args, start_error};
use fastfileocr_core::models::get;
use fastfileocr_core::runtimes::Hardware;

#[test]
fn every_device_loads_the_adapters_weights_and_projector_together() {
    let adapter = get("paddleocr-vl-1.6").unwrap();
    let model = adapter.runtime("app resources", "model cache");
    for device in ["cpu", "vulkan", "cuda"] {
        let args = server_args(&model, 8080, "key", device);
        for (flag, path) in [("--model", &model.weights), ("--mmproj", &model.projector)] {
            let at = args.iter().position(|arg| arg == flag).unwrap();
            assert_eq!(&args[at + 1], path);
        }
        assert_eq!(args.iter().any(|a| a == "--no-mmproj-offload"), device == "cpu");
        let layers = args.iter().position(|a| a == "--n-gpu-layers").unwrap();
        assert_eq!(args[layers + 1], if device == "cpu" { "0" } else { "99" });
    }
}

#[test]
fn the_server_listens_on_loopback_with_the_session_key() {
    let model = get("paddleocr-vl-1.6").unwrap().runtime("/r", "/m");
    let args = server_args(&model, 51234, "secret", "vulkan");
    let host = args.iter().position(|a| a == "--host").unwrap();
    assert_eq!(args[host + 1], "127.0.0.1");
    let port = args.iter().position(|a| a == "--port").unwrap();
    assert_eq!(args[port + 1], "51234");
    let key = args.iter().position(|a| a == "--api-key").unwrap();
    assert_eq!(args[key + 1], "secret");
    let ctx = args.iter().position(|a| a == "--ctx-size").unwrap();
    assert_eq!(args[ctx + 1], "24576");
    assert_eq!(log_file("cuda"), "llama-cuda.log");
}

#[test]
fn backends_without_a_driver_are_skipped() {
    let h = Hardware { cuda: false, vulkan: true };
    assert!(is_unavailable("cuda", h));
    assert!(!is_unavailable("vulkan", h));
    assert!(!is_unavailable("cpu", h));
    assert_eq!(failure("cuda", "boom"), "cuda: boom");
    let e = start_error(&vec!["cuda: a".into(), "cpu: b".into()], "/logs");
    assert!(e.starts_with("@i18n(engineStartError,"));
}

#[test]
fn replies_are_read_with_their_warnings() {
    let (t, w) = read_reply(true, "200 OK", None, Some("text"), Some("stop")).unwrap();
    assert_eq!(t, "text");
    assert!(w.is_none());
    let (_, w) = read_reply(true, "200 OK", None, Some("cut"), Some("length")).unwrap();
    assert_eq!(w.as_deref(), Some("@i18n(outputTruncated,)"));
    let (_, w) = read_reply(true, "200 OK", None, Some("  "), None).unwrap();
    assert_eq!(w.as_deref(), Some("@i18n(emptyRecognition,)"));
    assert_eq!(read_reply(true, "200 OK", None, None, None).err().unwrap(), "@i18n(emptyResponse,)");
    assert!(read_reply(false, "500", Some("oom"), None, None).err().unwrap().starts_with("@i18n(ocrError,"));
}

#[test]
fn a_starting_server_is_polled_until_healthy_or_three_minutes_pass() {
    assert!(matches!(start_step(StartCheck::Cancelled(false)), StartAction::Continue));
    assert!(matches!(start_step(StartCheck::Cancelled(true)), StartAction::Fail(m) if m == "@i18n(cancelledOperation,)"));
    assert!(matches!(start_step(StartCheck::Process { registered: false, exit: None }), StartAction::Fail(m) if m == "@i18n(engineStopped,)"));
    assert!(matches!(start_step(StartCheck::Process { registered: true, exit: Some("exit code: 1".into()) }), StartAction::Fail(m) if m.starts_with("@i18n(processExit,")));
    assert!(matches!(start_step(StartCheck::Process { registered: true, exit: None }), StartAction::Continue));
    assert!(matches!(start_step(StartCheck::Health { healthy: true, elapsed_ms: 500_000 }), StartAction::Ready));
    assert!(matches!(start_step(StartCheck::Health { healthy: false, elapsed_ms: 180_000 }), StartAction::Wait { ms: 250 }));
    assert!(matches!(start_step(StartCheck::Health { healthy: false, elapsed_ms: 180_001 }), StartAction::Fail(m) if m == "@i18n(loadTimeout,)"));
}
