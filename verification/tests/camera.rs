use moq_video::capture::camera::{
    cameras, label, resolve, unconnected, Answer, Node, Property, Remote, Scan, ID_CORE,
};
use moq_video::error::Error;

fn node(props: &[(&str, &str)]) -> Option<Node> {
    let props: Vec<Property> = props
        .iter()
        .map(|(key, value)| Property::new(key, value))
        .collect();
    Node::from_props(62, &props)
}

const WEBCAM: [(&str, &str); 4] = [
    ("media.class", "Video/Source"),
    ("media.role", "Camera"),
    ("node.name", "v4l2_input.pci-0000_00_14.0-usb-0_4_1.0"),
    ("node.description", "Integrated Camera (V4L2)"),
];

#[test]
fn camera_nodes_are_video_sources_with_the_camera_role() {
    assert_eq!(
        node(&WEBCAM),
        Some(Node {
            id: 62,
            name: "v4l2_input.pci-0000_00_14.0-usb-0_4_1.0".to_string(),
            description: "Integrated Camera (V4L2)".to_string(),
        })
    );

    let mut screen = WEBCAM;
    screen[1] = ("media.role", "Screen");
    assert_eq!(node(&screen), None);
    let mut sink = WEBCAM;
    sink[0] = ("media.class", "Video/Sink");
    assert_eq!(node(&sink), None);
    // The name is the id's only stable part, so a node without one is unusable.
    assert_eq!(node(&WEBCAM[..2]), None);
}

#[test]
fn a_camera_without_a_description_falls_back_to_its_nick_then_name() {
    let libcamera = [
        ("media.class", "Video/Source"),
        ("media.role", "Camera"),
        (
            "node.name",
            "libcamera_input./base/soc/i2c0mux/i2c@1/imx708@1a",
        ),
        ("node.nick", "imx708"),
    ];
    assert_eq!(node(&libcamera).unwrap().description, "imx708");
    assert_eq!(
        node(&libcamera[..3]).unwrap().description,
        "libcamera_input./base/soc/i2c0mux/i2c@1/imx708@1a"
    );
}

#[test]
fn resolve_finds_the_named_camera_or_fails() {
    let nodes = [node(&WEBCAM).unwrap()];
    assert_eq!(
        resolve(&nodes, Some("v4l2_input.pci-0000_00_14.0-usb-0_4_1.0")).unwrap(),
        Some(62)
    );
    assert_eq!(resolve(&nodes, None).unwrap(), None);
    let error = resolve(&nodes, Some("missing")).unwrap_err().message();
    assert!(
        error.contains("v4l2_input.pci-0000_00_14.0-usb-0_4_1.0"),
        "{error}"
    );
    assert!(matches!(
        resolve(&[], None),
        Err(Error::SourceUnavailable { .. })
    ));
}

/// An empty description is no description, and does not let the nick through: the
/// nick stands in for a description that is missing, not for one that is blank.
#[test]
fn a_blank_description_falls_back_to_the_name() {
    let blank = [
        ("media.class", "Video/Source"),
        ("media.role", "Camera"),
        ("node.name", "cam"),
        ("node.description", ""),
        ("node.nick", "nick"),
    ];
    assert_eq!(node(&blank).unwrap().description, "cam");
    let nameless = [
        ("media.class", "Video/Source"),
        ("media.role", "Camera"),
        ("node.name", ""),
    ];
    assert_eq!(node(&nameless), None);
}

#[test]
fn a_missing_camera_lists_the_ones_there_are() {
    let nodes = [
        Node {
            id: 1,
            name: "front".to_string(),
            description: "Front".to_string(),
        },
        Node {
            id: 2,
            name: "back".to_string(),
            description: "Back".to_string(),
        },
        Node {
            id: 3,
            name: "front".to_string(),
            description: "Twin".to_string(),
        },
    ];
    assert_eq!(
        resolve(&nodes, Some("side")).unwrap_err().message(),
        "no PipeWire camera named side (found: front, back, front)"
    );
    assert_eq!(
        resolve(&[], None).unwrap_err().message(),
        "PipeWire has no camera"
    );
    // Of two cameras with one name, the first is the one that opens.
    assert_eq!(resolve(&nodes, Some("front")), Ok(Some(1)));
    assert_eq!(resolve(&nodes, Some("back")), Ok(Some(2)));
}

#[test]
fn cameras_are_labelled_by_node() {
    let listed = cameras(&[node(&WEBCAM).unwrap()]);
    assert_eq!(listed.len(), 1);
    assert_eq!(
        listed[0].id,
        "pipewire:v4l2_input.pci-0000_00_14.0-usb-0_4_1.0"
    );
    assert_eq!(listed[0].name, "Integrated Camera (V4L2)");
    assert_eq!(label(None), "pipewire");
    assert_eq!(label(Some("x")), "pipewire:x");
}

fn webcam_props() -> Vec<Property> {
    WEBCAM
        .iter()
        .map(|(key, value)| Property::new(key, value))
        .collect()
}

#[test]
fn a_scan_ends_when_its_sync_is_answered() {
    let mut scan = Scan::new(7);
    assert!(!scan.done(ID_CORE, 6));
    assert!(!scan.done(5, 7));
    scan.global(62, &webcam_props());
    scan.global(63, &[Property::new("media.class", "Audio/Sink")]);
    assert!(scan.done(ID_CORE, 7));
    // The first outcome stands.
    assert!(scan.error(ID_CORE, "gone".to_string()));
    let nodes = scan.finish().unwrap();
    assert_eq!(nodes.len(), 1);
    assert_eq!(nodes[0].id, 62);
}

#[test]
fn only_a_node_with_properties_is_listed() {
    let props = webcam_props();
    let mut scan = Scan::new(1);
    scan.announce(60, false, Some(&props));
    scan.announce(61, true, None);
    scan.announce(62, true, Some(&props));
    scan.announce(63, true, Some(&props[..1]));
    scan.announce(64, false, None);
    assert!(scan.done(ID_CORE, 1));
    let nodes = scan.finish().unwrap();
    assert_eq!(nodes.len(), 1);
    assert_eq!(nodes[0].id, 62);
}

#[test]
fn a_scan_that_never_ends_says_so() {
    let mut failed = Scan::new(1);
    assert!(!failed.error(9, "a node died".to_string()));
    assert!(failed.error(ID_CORE, "connection reset".to_string()));
    assert!(failed.done(ID_CORE, 1));
    assert_eq!(
        failed.finish().unwrap_err().message(),
        "pipewire: connection reset"
    );
    assert_eq!(
        Scan::new(1).finish().unwrap_err().message(),
        "PipeWire did not list its objects within 5s"
    );
}

#[test]
fn a_host_without_pipewire_has_no_cameras() {
    assert_eq!(unconnected(false, "no socket".to_string()), Ok(Vec::new()));
    assert_eq!(
        unconnected(true, "no socket".to_string())
            .unwrap_err()
            .message(),
        "pipewire connect: no socket"
    );
}

#[test]
fn a_sandbox_goes_through_the_portal() {
    assert_eq!(Remote::begin(false), Remote::Socket);
    let step = Remote::begin(true);
    assert_eq!(step, Remote::ConnectPortal);
    let step = step.next(Answer::Done);
    assert_eq!(step, Remote::CheckPresent);
    let step = step.next(Answer::Present(true));
    assert_eq!(step, Remote::RequestAccess);
    let step = step.next(Answer::Done);
    assert_eq!(step, Remote::OpenRemote);
    assert_eq!(step.next(Answer::Done), Remote::Portal);
}

fn portal_failure(step: Remote) -> Error {
    match step {
        Remote::Fail(error) => error,
        step => panic!("{step:?}"),
    }
}

#[test]
fn a_portal_that_refuses_says_why() {
    let absent = portal_failure(Remote::CheckPresent.next(Answer::Present(false)));
    assert!(matches!(absent, Error::SourceUnavailable { .. }));
    assert_eq!(absent.message(), "the camera portal reports no camera");
    let denied = portal_failure(Remote::RequestAccess.next(Answer::Denied("cancelled".into())));
    assert!(matches!(denied, Error::PermissionDenied { .. }));
    assert_eq!(denied.message(), "camera access request: cancelled");
    for (step, text) in [
        (Remote::ConnectPortal, "camera portal: x"),
        (Remote::CheckPresent, "camera portal: x"),
        (Remote::RequestAccess, "camera portal access: x"),
        (Remote::OpenRemote, "camera portal pipewire remote: x"),
    ] {
        let failed = portal_failure(step.next(Answer::Failed("x".to_string())));
        assert_eq!(failed.message(), text);
    }
}
