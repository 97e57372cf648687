use convwatcher::common::config::WorkerIoMode;
use convwatcher::common::protocol::{Capabilities, JobKind, Message};
use convwatcher::config::watch::{AudioRule, ImageRule, VideoRule};
use convwatcher::processor::job::MatchedRule;
use convwatcher::worker::coordinator::{
    job_step, register_agent, secret_ok, server_id_for, JobStep, Registration, RemoteJob, WorkerPool,
};
use convwatcher::worker::dispatch::{can_remote, remote_plan};

fn register(id: &str, secret: &str, mode: WorkerIoMode) -> Message {
    Message::Register {
        agent_id: id.to_string(),
        secret: secret.to_string(),
        caps: Capabilities { ffmpeg: true, io_mode: mode },
    }
}

#[test]
fn secrets_compare_exactly() {
    assert!(secret_ok("", "anything"));
    assert!(secret_ok("s3cr3t", "s3cr3t"));
    assert!(!secret_ok("s3cr3t", "s3cr3"));
    assert!(!secret_ok("s3cr3t", "s3cr3T"));
    assert!(!secret_ok("s3cr3t", ""));
}

#[test]
fn registration_answers() {
    match register_agent("k", "srv", register("a1", "k", WorkerIoMode::Pipe)) {
        Registration::Accept { agent_id, io_mode, reply } => {
            assert_eq!(agent_id, "a1");
            assert_eq!(io_mode, WorkerIoMode::Pipe);
            assert!(matches!(reply, Message::RegisterAck { server_id } if server_id == "srv"));
        }
        _ => panic!("valid secret must be accepted"),
    }
    match register_agent("k", "srv", register("a1", "bad", WorkerIoMode::Pipe)) {
        Registration::Reject { reply, .. } => {
            assert!(matches!(reply, Message::RegisterReject { reason } if reason == "invalid secret"))
        }
        _ => panic!("bad secret must be rejected"),
    }
    assert!(matches!(register_agent("k", "srv", Message::Heartbeat), Registration::Unexpected));
}

#[test]
fn least_loaded_alive_agent_is_picked() {
    let mut pool = WorkerPool::new(String::new(), "srv".to_string());
    assert_eq!(pool.pick_agent(), None);
    let (_, c1) = pool.register(register("a", "", WorkerIoMode::Temp));
    let (_, _c2) = pool.register(register("b", "", WorkerIoMode::Temp));
    assert_eq!(pool.agent_count(), 2);
    assert_eq!(pool.pick_agent(), Some("a".to_string()));
    pool.begin_job("a");
    assert_eq!(pool.pick_agent(), Some("b".to_string()));
    pool.begin_job("b");
    pool.begin_job("b");
    assert_eq!(pool.pick_agent(), Some("a".to_string()));
    pool.end_job("a", false);
    assert_eq!(pool.pick_agent(), Some("b".to_string()));
    pool.mark_dead("b");
    assert_eq!(pool.pick_agent(), None);
    pool.remove_if_current("a", c1 + 100);
    assert_eq!(pool.agent_count(), 2);
    pool.remove_if_current("a", c1);
    assert_eq!(pool.agent_count(), 1);
    assert_eq!(pool.next_job_id(), 1);
    assert_eq!(pool.next_job_id(), 2);
}

#[test]
fn reconnect_replaces_the_entry() {
    let mut pool = WorkerPool::new(String::new(), "srv".to_string());
    let (_, old) = pool.register(register("a", "", WorkerIoMode::Temp));
    let (_, new) = pool.register(register("a", "", WorkerIoMode::Pipe));
    assert_ne!(old, new);
    pool.remove_if_current("a", old);
    let a = pool.agent("a").unwrap();
    assert_eq!(a.connection, new);
    assert_eq!(a.io_mode, WorkerIoMode::Pipe);
}

#[test]
fn job_replies() {
    assert_eq!(job_step(5, Message::JobStatus { job_id: 5, state: "running".into() }), JobStep::Continue);
    assert_eq!(job_step(5, Message::JobOutputStart { job_id: 5, output_len: 9 }), JobStep::ReceiveOutput { len: 9 });
    assert_eq!(job_step(5, Message::JobOutputStart { job_id: 6, output_len: 9 }), JobStep::WrongJob { got: 6 });
    assert_eq!(job_step(5, Message::JobResult { job_id: 5, ok: true, error: None }), JobStep::Done);
    assert_eq!(
        job_step(5, Message::JobResult { job_id: 5, ok: false, error: Some("boom".into()) }),
        JobStep::Failed { error: "boom".into() }
    );
    assert_eq!(job_step(5, Message::Heartbeat), JobStep::Unexpected);
    let job = RemoteJob::new(JobKind::Audio, None, None, "mp3".into(), "/in.wav".into(), "/out.mp3".into());
    match job.header(3, WorkerIoMode::Temp, 1234) {
        Message::Job { job_id, kind, output_ext, input_len, .. } => {
            assert_eq!((job_id, kind, output_ext.as_str(), input_len), (3, JobKind::Audio, "mp3", 1234));
        }
        _ => panic!("job header expected"),
    }
}

#[test]
fn remote_routing_plans() {
    let video = MatchedRule::Video(VideoRule {
        preset: "p".into(),
        subfolder: None,
        input_extensions: vec![],
        output_ext: Some(".mkv".into()),
        codec: None,
        quality: Some("crf 20".into()),
        audio_codec: None,
        audio_bitrate: None,
        output_name: None,
        check_duration: Some(false),
        min_duration_ratio_bits: None,
    });
    assert!(can_remote(1, &video));
    assert!(!can_remote(0, &video));
    let plan = remote_plan(&video).unwrap();
    assert_eq!(plan.kind, JobKind::Video);
    assert_eq!(plan.naming.ext, "mkv");
    assert_eq!(plan.naming.codec, "libx264");
    assert_eq!(plan.video_rule.unwrap().quality.as_deref(), Some("crf 20"));
    let audio = MatchedRule::Audio(AudioRule {
        preset: "p".into(),
        subfolder: None,
        input_extensions: vec![],
        output_ext: None,
        audio_codec: None,
        audio_bitrate: None,
        sample_rate: Some(48000),
        channels: None,
        output_name: None,
    });
    let plan = remote_plan(&audio).unwrap();
    assert_eq!(plan.naming.ext, "mp3");
    assert_eq!(plan.naming.codec, "libmp3lame");
    assert_eq!(plan.audio_rule.unwrap().sample_rate, Some(48000));
    let image = MatchedRule::Image(ImageRule {
        preset: "p".into(),
        subfolder: None,
        input_extensions: vec![],
        output_ext: None,
        quality: None,
        transparent: None,
        output_name: None,
    });
    assert!(!can_remote(3, &image));
    assert!(remote_plan(&image).is_none());
}

#[test]
fn successful_job_leaves_agent_as_before_and_failed_one_retires_it() {
    let mut pool = WorkerPool::new(String::new(), "srv".to_string());
    pool.register(register("a", "", WorkerIoMode::Pipe));
    let before = pool.agent("a").unwrap();
    pool.begin_job("a");
    assert_eq!(pool.agent("a").unwrap().inflight, 1);
    pool.end_job("a", true);
    let after = pool.agent("a").unwrap();
    assert_eq!((after.inflight, after.alive, after.io_mode), (before.inflight, before.alive, before.io_mode));
    pool.begin_job("a");
    pool.end_job("a", false);
    assert!(!pool.agent("a").unwrap().alive);
    assert_eq!(pool.pick_agent(), None);
}

#[test]
fn server_ids_carry_the_process_id() {
    assert_eq!(server_id_for(4242), "convwatcher-server-4242");
}

#[test]
fn job_header_carries_the_rules_unchanged() {
    let rule = convwatcher::common::protocol::WireVideoRule {
        codec: Some("libx265".into()),
        quality: Some("-crf 28".into()),
        audio_codec: Some("aac".into()),
        audio_bitrate: Some("128k".into()),
        check_duration: Some(true),
        min_duration_ratio_bits: Some(0.9f64.to_bits()),
    };
    let job = RemoteJob::new(JobKind::Video, Some(rule), None, "mkv".into(), "/in.mp4".into(), "/out.mkv".into());
    match job.header(4, WorkerIoMode::Pipe, 10) {
        Message::Job { video_rule: Some(v), audio_rule, io_mode, .. } => {
            assert_eq!(v.codec.as_deref(), Some("libx265"));
            assert_eq!(v.quality.as_deref(), Some("-crf 28"));
            assert_eq!(v.audio_codec.as_deref(), Some("aac"));
            assert_eq!(v.audio_bitrate.as_deref(), Some("128k"));
            assert_eq!(v.check_duration, Some(true));
            assert_eq!(v.min_duration_ratio_bits, Some(0.9f64.to_bits()));
            assert!(audio_rule.is_none());
            assert_eq!(io_mode, WorkerIoMode::Pipe);
        }
        _ => panic!("video job header expected"),
    }
}

#[test]
fn connection_numbers_are_never_reused() {
    let mut pool = WorkerPool::new(String::new(), "srv".into());
    let (_, c0) = pool.register(register("a", "", WorkerIoMode::Temp));
    let (_, c1) = pool.register(register("a", "", WorkerIoMode::Temp));
    pool.remove_if_current("a", c1);
    let (_, c2) = pool.register(register("a", "", WorkerIoMode::Temp));
    assert!(c0 != c1 && c1 != c2 && c0 != c2);
    pool.remove_if_current("a", c0);
    assert!(pool.agent("a").is_some());
}
