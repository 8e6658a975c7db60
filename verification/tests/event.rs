use taru::dict::Dict;
use taru::event::{frame_event, greeting, send_message, Event, EventBus};
use taru::json::Member;
use tokio::sync::broadcast::TryRecvError;

fn arguments(pairs: &[(&str, &str)]) -> Dict<String> {
    let mut dict = Dict::new();
    for (name, value) in pairs {
        dict.insert(name.to_string(), value.to_string());
    }
    dict
}

#[test]
fn event_names() {
    assert_eq!(Event::Ping.name(), "ping");
    assert_eq!(Event::Started("t".to_string(), Dict::new()).name(), "started");
    assert_eq!(Event::Finished("t".to_string(), None).name(), "finished");
    assert_eq!(
        Event::TaskData("t".to_string(), "k".to_string(), "v".to_string()).name(),
        "task_data"
    );
    assert_eq!(Event::UpdateConfig.name(), "update_config");
}

#[test]
fn frame_of_name_and_data() {
    assert_eq!(frame_event("ping", b""), b"event: ping\ndata: \n\n".to_vec());
    assert_eq!(frame_event("x", b"{}"), b"event: x\ndata: {}\n\n".to_vec());
}

#[test]
fn a_listener_is_greeted_with_a_ping() {
    assert!(matches!(greeting(), Event::Ping));
    assert_eq!(&greeting().to_event()[..], &b"event: ping\ndata: \n\n"[..]);
}

#[test]
fn ping_goes_out_without_data() {
    assert_eq!(&Event::Ping.to_event()[..], &b"event: ping\ndata: \n\n"[..]);
}

#[test]
fn update_config_goes_out_without_data() {
    assert_eq!(&Event::UpdateConfig.to_event()[..], &b"event: update_config\ndata: \n\n"[..]);
}

#[test]
fn task_data_goes_out_without_data() {
    let event = Event::TaskData("t".to_string(), "k".to_string(), "v".to_string());
    assert_eq!(&event.to_event()[..], &b"event: task_data\ndata: \n\n"[..]);
}

#[test]
fn members_of_a_start() {
    let event = Event::Started("build".to_string(), arguments(&[("target", "x86")]));
    let members = event.members();
    assert_eq!(members.len(), 2);
    assert_eq!(members[0].0, "task");
    assert!(matches!(&members[0].1, Member::Text(task) if task == "build"));
    assert_eq!(members[1].0, "arguments");
    match &members[1].1 {
        Member::Texts(given) => {
            assert_eq!(given.len(), 1);
            assert_eq!(given.get("target"), Some(&"x86".to_string()));
        }
        other => panic!("expected the arguments, got {:?}", other),
    }
}

#[test]
fn members_of_a_finish() {
    let members = Event::Finished("build".to_string(), Some(7)).members();
    assert_eq!(members.len(), 2);
    assert_eq!(members[0].0, "task");
    assert!(matches!(&members[0].1, Member::Text(task) if task == "build"));
    assert_eq!(members[1].0, "exit_code");
    assert!(matches!(members[1].1, Member::Number(7)));
    let members = Event::Finished("build".to_string(), None).members();
    assert_eq!(members[1].0, "exit_code");
    assert!(matches!(members[1].1, Member::Null));
}

#[test]
fn other_events_have_no_members() {
    assert!(Event::Ping.members().is_empty());
    assert!(Event::UpdateConfig.members().is_empty());
    let data = Event::TaskData("t".to_string(), "k".to_string(), "v".to_string());
    assert!(data.members().is_empty());
}

#[test]
fn started_goes_out_with_task_and_arguments() {
    let event = Event::Started("build".to_string(), arguments(&[("target", "x86"), ("jobs", "4")]));
    let text = String::from_utf8(event.to_event().to_vec()).unwrap();
    assert_eq!(
        text,
        "event: started\ndata: {\"arguments\":{\"jobs\":\"4\",\"target\":\"x86\"},\"task\":\"build\"}\n\n"
    );
}

#[test]
fn started_without_arguments() {
    let event = Event::Started("build".to_string(), Dict::new());
    let text = String::from_utf8(event.to_event().to_vec()).unwrap();
    assert_eq!(text, "event: started\ndata: {\"arguments\":{},\"task\":\"build\"}\n\n");
}

#[test]
fn started_escapes_strings() {
    let event = Event::Started("a\"b".to_string(), arguments(&[("n", "line\nbreak")]));
    let text = String::from_utf8(event.to_event().to_vec()).unwrap();
    assert_eq!(
        text,
        "event: started\ndata: {\"arguments\":{\"n\":\"line\\nbreak\"},\"task\":\"a\\\"b\"}\n\n"
    );
}

#[test]
fn finished_goes_out_with_task_and_exit_code() {
    let event = Event::Finished("build".to_string(), Some(0));
    let text = String::from_utf8(event.to_event().to_vec()).unwrap();
    assert_eq!(text, "event: finished\ndata: {\"exit_code\":0,\"task\":\"build\"}\n\n");
    let event = Event::Finished("build".to_string(), Some(-3));
    let text = String::from_utf8(event.to_event().to_vec()).unwrap();
    assert_eq!(text, "event: finished\ndata: {\"exit_code\":-3,\"task\":\"build\"}\n\n");
}

#[test]
fn finished_by_signal_has_null_exit_code() {
    let event = Event::Finished("build".to_string(), None);
    let text = String::from_utf8(event.to_event().to_vec()).unwrap();
    assert_eq!(text, "event: finished\ndata: {\"exit_code\":null,\"task\":\"build\"}\n\n");
}

#[test]
fn clone_of_event_is_the_same_event() {
    let event = Event::Started("build".to_string(), arguments(&[("a", "1")]));
    let copy = event.clone();
    assert_eq!(&event.to_event()[..], &copy.to_event()[..]);
    assert_eq!(format!("{:?}", event), format!("{:?}", copy));
}

#[test]
fn send_message_without_listener_is_no_error() {
    let (sender, receiver) = tokio::sync::broadcast::channel::<u32>(4);
    drop(receiver);
    send_message(&sender, 1);
    send_message(&sender, 2);
}

#[test]
fn send_message_reaches_listeners() {
    let (sender, mut a) = tokio::sync::broadcast::channel::<u32>(4);
    let mut b = sender.subscribe();
    send_message(&sender, 7);
    assert_eq!(a.try_recv().unwrap(), 7);
    assert_eq!(b.try_recv().unwrap(), 7);
}

#[test]
fn bus_posts_reach_listeners_in_order() {
    let mut bus = EventBus::new();
    bus.post(Event::Ping);
    let mut listener = bus.sender().subscribe();
    bus.post(Event::UpdateConfig);
    bus.post(Event::Finished("t".to_string(), Some(1)));
    assert!(matches!(listener.try_recv(), Ok(Event::UpdateConfig)));
    assert!(matches!(listener.try_recv(), Ok(Event::Finished(task, Some(1))) if task == "t"));
    assert!(matches!(listener.try_recv(), Err(TryRecvError::Empty)));
}

#[test]
fn second_handle_posts_on_the_same_bus() {
    let bus = EventBus::new();
    let mut listener = bus.sender().subscribe();
    let mut handle = bus.handle();
    handle.post(Event::Ping);
    assert!(matches!(listener.try_recv(), Ok(Event::Ping)));
}
