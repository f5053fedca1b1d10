use locha_p2p::chat::{
    read_request, read_response, write_request, write_response, ChatCodecError, ChatHandler,
    Message, MessageConfirmation,
};
use locha_p2p::miniupnpc::commands::Protocol;
use locha_p2p::miniupnpc::{
    api_version, igd_from_answer, igd_status, lan_address, Device, DeviceList, IgdData,
    IgdService, LocalPort, Urls,
};
use locha_p2p::runtime::{message_payload, message_text, next_action, step_after, RuntimeAction, TaskStep};
use locha_p2p::sync::task_interrupt::TaskInterrupt;
use locha_p2p::runtime::NetworkInfo;
use locha_p2p::ui::{App, Data, NetInfo, TabsInfo};

#[test]
fn closed_channel_stops_the_runtime() {
    assert!(matches!(next_action(None), RuntimeAction::Stop));
    assert!(matches!(next_action(Some(RuntimeAction::Bootstrap)), RuntimeAction::Bootstrap));
    assert!(matches!(step_after(&RuntimeAction::Stop), TaskStep::Stop));
    assert!(matches!(step_after(&RuntimeAction::SendMessage("hi".to_string())), TaskStep::Continue));
}

#[test]
fn message_round_trip() {
    let text = "Welcome, bienvenido! ñandú 🦜".to_string();
    let payload = message_payload(&text);
    assert_eq!(payload, text.as_bytes().to_vec());
    assert_eq!(message_text(&payload), text);
    assert_eq!(message_text(&[0x66, 0xff, 0x6f]), "f\u{fffd}o");
}

#[test]
fn chat_request_round_trip() {
    let m = Message { content: "hola".to_string() };
    let bytes = write_request(&m);
    assert_eq!(bytes, b"hola".to_vec());
    assert_eq!(read_request(bytes).ok().unwrap().content, "hola");
    assert!(matches!(read_request(vec![0xff, 0xfe]), Err(ChatCodecError::InvalidUtf8)));
}

#[test]
fn chat_confirmation_magic() {
    let magic = write_response(&MessageConfirmation);
    assert_eq!(magic, b"\xDE\xAD\xBE\xEF\xCA\xFE\xCA\xFE".to_vec());
    assert!(read_response(&magic).is_ok());
    assert!(matches!(read_response(b"\xDE\xAD\xBE\xEF\xCA\xFE\xCA\xFF"), Err(ChatCodecError::InvalidMagic)));
    assert!(matches!(read_response(b"\xDE\xAD"), Err(ChatCodecError::InvalidMagic)));
    let _handler = ChatHandler::new();
}

#[test]
fn typing_and_sending() {
    let mut data = Data::new();
    data.input_push('h');
    data.input_push('o');
    data.input_push('x');
    data.input_backspace();
    data.input_push('l');
    data.input_push('a');
    assert_eq!(data.input_send(1600000000), "hola");
    assert_eq!(data.input_send(1600000001), "");
    data.input_backspace();
    assert_eq!(data.input_send(1600000002), "");
}

#[test]
fn tabs_cycle() {
    let mut tabs = TabsInfo::new(vec!["Main".to_string(), "Peers".to_string(), "Log".to_string()]);
    tabs.next();
    tabs.next();
    tabs.next();
    let mut single = TabsInfo::new(vec!["Main".to_string()]);
    single.next();
    let _ = (tabs, single);
}

#[test]
fn miniupnpc_codes() {
    assert_eq!(api_version(), 17);
    assert_eq!(LocalPort::Any.to_raw(), 0);
    assert_eq!(LocalPort::Same.to_raw(), 1);
    assert_eq!(LocalPort::Other(5555).to_raw(), 5555);
    assert_eq!(Protocol::Tcp.as_str(), "TCP");
    assert_eq!(Protocol::Udp.as_str(), "UDP");
    assert_eq!(igd_status(0), None);
    assert_eq!(igd_status(1), Some((true, true)));
    assert_eq!(igd_status(2), Some((true, false)));
    assert_eq!(igd_status(3), Some((false, false)));
    assert_eq!(lan_address(None, Some([192, 168, 0, 5])), ([192, 168, 0, 5], 1900));
}

#[test]
fn device_list_iterates_in_order() {
    let list = DeviceList::from_devices(vec![
        Device::new("http://192.168.0.1/rootDesc.xml".to_string(), 0),
        Device::new("http://192.168.0.2/desc.xml".to_string(), 3),
    ]);
    assert!(!list.is_empty());
    let mut it = list.iter();
    assert_eq!(it.next().unwrap().desc_url(), "http://192.168.0.1/rootDesc.xml");
    assert_eq!(it.next().unwrap().scope_id(), 3);
    assert!(it.next().is_none());
    assert!(DeviceList::from_devices(vec![]).is_empty());
    assert!(DeviceList::from_devices(vec![]).iter().next().is_none());
}

#[test]
fn message_lines_show_time_and_text() {
    let mut data = Data::new();
    data.input_push('h');
    data.input_push('i');
    data.input_send(1234);
    data.input_push('ñ');
    data.input_send(0);
    data.input_send(18446744073709551615);
    assert_eq!(
        data.message_lines(),
        vec!["[1234]: hi".to_string(), "[0]: ñ".to_string(), "[18446744073709551615]: ".to_string()]
    );
}

#[test]
fn task_interrupt_is_permanent() {
    let mut t = TaskInterrupt::new();
    assert!(t.sleep_timed_out());
    t.interrupt();
    assert!(!t.sleep_timed_out());
    t.interrupt();
    assert!(!t.sleep_timed_out());
}

#[test]
fn network_info_panel_lines() {
    let info = NetworkInfo {
        num_peers: 3,
        num_connections: 10,
        num_connections_pending: 0,
        num_connections_established: 7,
    };
    assert_eq!(
        NetInfo::new(info).lines(),
        vec![
            "Peers connected: 3".to_string(),
            "Total connections: 10".to_string(),
            "Total pending connections: 0".to_string(),
            "Total established connections: 7".to_string(),
        ]
    );
    let mut app = App::new(NetworkInfo {
        num_peers: 0,
        num_connections: 0,
        num_connections_pending: 0,
        num_connections_established: 0,
    });
    assert_eq!(app.network_info_lines()[0], "Peers connected: 0");
    app.update_network_info(NetworkInfo {
        num_peers: 42,
        num_connections: 1,
        num_connections_pending: 1,
        num_connections_established: 0,
    });
    assert_eq!(app.network_info_lines()[0], "Peers connected: 42");
    assert_eq!(app.network_info_lines()[2], "Total pending connections: 1");
}

#[test]
fn task_runs_actions_in_order_then_stops() {
    let received = vec![
        Some(RuntimeAction::Bootstrap),
        Some(RuntimeAction::SendMessage("a".to_string())),
        Some(RuntimeAction::PeerId),
        None,
        Some(RuntimeAction::Bootstrap),
    ];
    let mut performed = Vec::new();
    for r in received {
        let action = next_action(r);
        let stop = matches!(step_after(&action), TaskStep::Stop);
        performed.push(action);
        if stop {
            break;
        }
    }
    assert_eq!(performed.len(), 4);
    assert!(matches!(performed[0], RuntimeAction::Bootstrap));
    assert!(matches!(&performed[1], RuntimeAction::SendMessage(m) if m == "a"));
    assert!(matches!(performed[2], RuntimeAction::PeerId));
    assert!(matches!(performed[3], RuntimeAction::Stop));
}

fn service(name: &str) -> IgdService {
    IgdService {
        control_url: format!("/{}", name),
        event_sub_url: String::new(),
        scpd_url: String::new(),
        service_type: format!("urn:{}", name),
    }
}

fn answer(code: i32) -> Option<locha_p2p::miniupnpc::ValidIgd> {
    let urls = Urls {
        control_url: "http://192.168.0.1/ctl".to_string(),
        ipcon_desc_url: String::new(),
        control_url_cif: String::new(),
        control_url_6fc: String::new(),
        root_desc_url: String::new(),
    };
    let data = IgdData {
        cur_elt_name: String::new(),
        url_base: String::new(),
        presentation_url: String::new(),
        level: 1,
        cif: service("cif"),
        first: service("first"),
        second: service("second"),
        ipv6_fc: service("fc"),
        tmp: service("tmp"),
    };
    igd_from_answer(code, urls, data, None, Some([192, 168, 0, 7]))
}

#[test]
fn valid_igd_from_answer_codes() {
    assert!(answer(0).is_none());
    let v = answer(1).unwrap();
    assert!(v.connected);
    assert_eq!(v.data.as_ref().unwrap().first().service_type, "urn:first");
    assert_eq!(v.lan_address, ([192, 168, 0, 7], 1900));
    assert_eq!(v.urls.control_url, "http://192.168.0.1/ctl");
    let v = answer(2).unwrap();
    assert!(!v.connected);
    assert!(v.data.is_some());
    let v = answer(3).unwrap();
    assert!(!v.connected);
    assert!(v.data.is_none());
}
