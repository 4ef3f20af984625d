use ray_rust::adapt::{make_payload_service, payload_service, PayloadServiceFn};

#[test]
fn a_maker_calls_its_function_with_the_target_and_the_payload() {
    let maker = make_payload_service(|target: &str, payload: Vec<u8>| (target.len(), payload), vec![1u8, 2, 3]);
    assert_eq!(maker.call("abcd"), (4, vec![1, 2, 3]));
    assert_eq!(maker.call(""), (0, vec![1, 2, 3]));
    assert_eq!(maker.payload, vec![1, 2, 3]);
}

#[test]
fn a_service_hands_every_call_a_copy_of_the_payload() {
    let service: PayloadServiceFn<_, u32, String> = payload_service(
        |req: u32, mut payload: String| {
            payload.push_str(&req.to_string());
            payload
        },
        "request ".to_string(),
    );
    assert_eq!(service.call(1), "request 1");
    assert_eq!(service.call(22), "request 22");
    assert_eq!(service.payload, "request ");
}
