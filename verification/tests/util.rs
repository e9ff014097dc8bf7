use bili_ticker_buy::util::CTokenGenerator;

#[test]
fn new_generator_starts_idle() {
    let g = CTokenGenerator::new(1_700_000_000, 12, 3_000);
    assert_eq!(g.ticket_collection_t, 1_700_000_000);
    assert_eq!(g.time_offset, 12);
    assert_eq!(g.stay_time, 3_000);
    assert_eq!(g.touch_event, 0);
    assert_eq!(g.timer, 0);
    assert_eq!(g.screen_avail_width, 0);
}

#[test]
fn idle_state_encodes_to_zero_record() {
    let g = CTokenGenerator::new(0, 0, 0);
    assert_eq!(g.token_bytes(), vec![0u8; 16]);
    assert_eq!(g.encode(), "AAAAAAAAAAAAAAAAAAAAAAAAAAAAAAAAAAAAAAAAAAA=");
}

#[test]
fn record_layout_caps_fields() {
    let mut g = CTokenGenerator::new(0, 0, 0);
    g.touch_event = 1;
    g.visibility_change = 2;
    g.inner_width = 300;
    g.inner_height = 255;
    g.outer_width = 255;
    g.timer = 300;
    g.time_difference = 5;
    g.outer_height = 255;
    g.screen_width = 255;
    assert_eq!(
        g.token_bytes(),
        vec![1, 0, 2, 0, 255, 0, 255, 255, 0x01, 0x2c, 0, 5, 255, 0, 0, 255]
    );
    assert_eq!(g.encode(), "AQAAAAIAAAD/AAAA/wD/AAEALAAAAAUA/wAAAAAA/wA=");
    g.timer = 70_000;
    assert_eq!(g.token_bytes()[8], 0xff);
    assert_eq!(g.token_bytes()[9], 0xff);
}

#[test]
fn prepare_token_uses_stay_time() {
    let mut g = CTokenGenerator::new(1_700_000_000, 0, 4_321);
    let token = g.generate_ctoken(false);
    assert_eq!(g.timer, 4_321);
    assert_eq!(g.time_difference, 0);
    assert!((3..10).contains(&g.touch_event));
    assert!((1_000..3_000).contains(&g.screen_height));
    assert!((1..100).contains(&g.screen_avail_width));
    assert_eq!(g.visibility_change, 2);
    assert_eq!(token, g.encode());
    assert_eq!(token.len(), 44);
}

#[test]
fn order_token_measures_time_on_page() {
    let now = std::time::SystemTime::now()
        .duration_since(std::time::UNIX_EPOCH)
        .unwrap()
        .as_secs();
    let mut g = CTokenGenerator::new(now - 100, 0, 2_000);
    let token = g.generate_ctoken(true);
    assert_eq!(g.touch_event, 255);
    assert_eq!(g.page_unload, 25);
    assert!(g.time_difference >= 100 && g.time_difference < 200);
    assert_eq!(g.timer, g.time_difference + 2_000);
    assert_eq!(token, g.encode());
}
