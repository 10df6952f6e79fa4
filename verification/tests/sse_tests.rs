use interstellare_simulation::http::{needs_js_mime, route_request, Route};
use interstellare_simulation::sse::{removal_event, snapshot_event};
use interstellare_simulation::wire::{BodyText, MetaText};

#[test]
fn removal_frame_is_exact() {
    let frame = String::from_utf8(removal_event(3, 17)).unwrap();
    assert_eq!(frame, "id: 3\r\nevent: removed\r\ndata: {\"index\":17}\r\n\r\n");
}

#[test]
fn snapshot_frame_is_exact() {
    let b1 = BodyText {
        mass: b"1".to_vec(),
        density: b"2".to_vec(),
        radius: b"3".to_vec(),
        x: b"4".to_vec(),
        y: b"5".to_vec(),
        z: b"6".to_vec(),
        vx: b"7".to_vec(),
        vy: b"8".to_vec(),
        vz: b"9".to_vec(),
    };
    let mt = MetaText {
        interaction_constant: b"0.5".to_vec(),
        time_scaling: b"10".to_vec(),
    };
    let rendered = vec![b1.to_wire(), b1.to_wire()];
    let frame = String::from_utf8(snapshot_event(12, &rendered, &mt.to_wire())).unwrap();
    let one_body = "{\"mass\": 1, \"density\": 2, \"radius\": 3, \"x\": 4, \"y\": 5, \
                    \"z\": 6, \"vx\": 7, \"vy\": 8, \"vz\": 9}";
    let expected = format!(
        "id: 12\r\nevent: simulation\r\ndata: {{\"simstate\": [{}, {}], \"metadata\": \
         {{\"interaction_constant\": 0.5, \"time_scaling\": 10}}}}\r\n\r\n",
        one_body, one_body
    );
    assert_eq!(frame, expected);
}

#[test]
fn snapshot_frame_with_no_bodies_has_empty_list() {
    let frame = String::from_utf8(snapshot_event(1, &vec![], b"{}")).unwrap();
    assert_eq!(
        frame,
        "id: 1\r\nevent: simulation\r\ndata: {\"simstate\": [], \"metadata\": {}}\r\n\r\n"
    );
}

#[test]
fn routing_matches_the_server_endpoints() {
    assert_eq!(route_request(b"GET", b"/simulation"), Route::StreamSimulation);
    assert_eq!(route_request(b"GET", b"/"), Route::ServeFile(b"index.html".to_vec()));
    assert_eq!(
        route_request(b"GET", b"/scripts/view.js"),
        Route::ServeFile(b"scripts/view.js".to_vec())
    );
    assert_eq!(route_request(b"POST", b"/input"), Route::AcceptCommand);
    assert_eq!(route_request(b"POST", b"/other"), Route::PostNotFound);
    assert_eq!(route_request(b"PUT", b"/input"), Route::NotFound);
}

#[test]
fn js_files_get_the_mime_header() {
    assert!(needs_js_mime(b"scripts/view.js"));
    assert!(!needs_js_mime(b"index.html"));
    assert!(!needs_js_mime(b"js"));
}
