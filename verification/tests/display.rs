use claudial::bringup::co5300 as region;
use claudial::bringup::co5300::{pixel_bytes, Rectangle};
use claudial::co5300::{stage_rows, Co5300, Error, FlushPlan, LineStep};
use claudial::panel;
use claudial::panel::{BusOp, Lines, Payload, Transfer};

fn command(opcode: u32, payload: Payload) -> [BusOp; 3] {
    [
        BusOp::Select,
        BusOp::Send(Transfer {
            data: Lines::Single,
            command: Some(0x02),
            address: Some(opcode << 8),
            payload,
        }),
        BusOp::Deselect,
    ]
}

#[test]
fn brightness_maps_onto_the_register() {
    assert_eq!(panel::brightness_register(100), 255);
    assert_eq!(panel::brightness_register(200), 255);
    assert_eq!(panel::brightness_register(80), 204);
    assert_eq!(panel::brightness_register(5), 13);
    assert_eq!(panel::brightness_register(0), 13);
    assert_eq!(panel::brightness_register(50), 128);
}

#[test]
fn parameters_travel_high_byte_first() {
    assert_eq!(Payload::Nothing.parameter_bytes(), Vec::<u8>::new());
    assert_eq!(Payload::Byte(0x55).parameter_bytes(), vec![0x55]);
    let bounds = Payload::Bounds {
        first: 0x0102,
        last: 0x01df,
    };
    assert_eq!(bounds.parameter_bytes(), vec![1, 2, 1, 0xdf]);
}

#[test]
fn initialization_resets_then_configures() {
    let ops = region::Co5300::new(480, 480).init();
    assert_eq!(
        &ops[..7],
        &[
            BusOp::Deselect,
            BusOp::ResetHigh,
            BusOp::DelayMs(10),
            BusOp::ResetLow,
            BusOp::DelayMs(200),
            BusOp::ResetHigh,
            BusOp::DelayMs(200),
        ]
    );
    assert_eq!(&ops[7..10], &command(0x11, Payload::Nothing));
    assert_eq!(ops[10], BusOp::DelayMs(120));
    assert_eq!(&ops[11..14], &command(0xfe, Payload::Byte(0)));
    assert_eq!(&ops[38..41], &command(0x36, Payload::Byte(0xa0)));
    assert_eq!(ops[41], BusOp::DelayMs(10));
    assert_eq!(ops.len(), 42);
}

#[test]
fn panel_commands_are_sent_whole() {
    let display = region::Co5300::new(480, 480);
    assert_eq!(
        display.set_brightness(204),
        command(0x51, Payload::Byte(204))
    );
    assert_eq!(display.wake(), command(0x11, Payload::Nothing));
    assert_eq!(display.display_on(), command(0x29, Payload::Nothing));
    let sleep = display.sleep();
    assert_eq!(&sleep[..3], &command(0x28, Payload::Nothing));
    assert_eq!(&sleep[3..], &command(0x10, Payload::Nothing));
}

fn pixel_sends(ops: &[BusOp]) -> Vec<Transfer> {
    let mut sends = Vec::new();
    for op in ops {
        if let BusOp::Send(transfer) = op {
            if transfer.data == Lines::Quad {
                sends.push(*transfer);
            }
        }
    }
    sends
}

fn upload(
    display: region::Co5300,
    framebuffer: &[[u8; 2]],
    stride: usize,
    rectangles: &[Rectangle],
) -> region::Upload<u8> {
    display.write_region(framebuffer, stride, rectangles)
}

#[test]
fn full_rows_are_coalesced() {
    let framebuffer = vec![[0u8; 2]; 480 * 480];
    let whole = Rectangle {
        x: 0,
        y: 0,
        width: 480,
        height: 480,
    };
    let upload = upload(region::Co5300::new(480, 480), &framebuffer, 480, &[whole]);
    assert!(matches!(upload.outcome, Ok(60)));
    let sends = pixel_sends(&upload.ops);
    assert_eq!(sends.len(), 60);
    assert_eq!(sends[0].command, Some(0x32));
    assert_eq!(sends[0].address, Some(0x003c00));
    assert_eq!(
        sends[0].payload,
        Payload::Pixels {
            begin: 0,
            end: 3840
        }
    );
    assert_eq!(sends[1].command, None);
    assert_eq!(sends[1].address, None);
    assert_eq!(
        sends[59].payload,
        Payload::Pixels {
            begin: 59 * 3840,
            end: 480 * 480
        }
    );
}

#[test]
fn narrow_rectangles_go_row_by_row() {
    let mut framebuffer = vec![[0u8; 2]; 8 * 6];
    for (index, pixel) in framebuffer.iter_mut().enumerate() {
        *pixel = [index as u8, 100 + index as u8];
    }
    let rectangle = Rectangle {
        x: 2,
        y: 2,
        width: 4,
        height: 2,
    };
    let upload = upload(region::Co5300::new(8, 6), &framebuffer, 8, &[rectangle]);
    assert!(matches!(upload.outcome, Ok(2)));
    assert_eq!(
        &upload.ops[..3],
        &command(0x2a, Payload::Bounds { first: 2, last: 5 })
    );
    assert_eq!(
        &upload.ops[3..6],
        &command(0x2b, Payload::Bounds { first: 2, last: 3 })
    );
    assert_eq!(&upload.ops[6..9], &command(0x2c, Payload::Nothing));
    assert_eq!(upload.ops[9], BusOp::Select);
    assert_eq!(upload.ops[12], BusOp::Deselect);
    let mut sent = Vec::new();
    for transfer in pixel_sends(&upload.ops) {
        if let Payload::Pixels { begin, end } = transfer.payload {
            sent.extend_from_slice(pixel_bytes(&framebuffer, begin, end));
        }
    }
    assert_eq!(
        sent,
        vec![18, 118, 19, 119, 20, 120, 21, 121, 26, 126, 27, 127, 28, 128, 29, 129]
    );
}

#[test]
fn inexpressible_rectangles_end_the_upload() {
    let framebuffer = vec![[0u8; 2]; 64];
    let good = Rectangle {
        x: 0,
        y: 0,
        width: 2,
        height: 2,
    };
    for bad in [
        Rectangle { x: -2, ..good },
        Rectangle { y: 70_000, ..good },
        Rectangle {
            width: 65_536,
            ..good
        },
        Rectangle {
            height: 65_536,
            ..good
        },
    ] {
        let upload = upload(
            region::Co5300::new(8, 8),
            &framebuffer,
            8,
            &[good, bad, good],
        );
        assert!(matches!(upload.outcome, Err(region::Error::InvalidRegion)));
        assert_eq!(pixel_sends(&upload.ops).len(), 2);
    }
}

fn display(width: u16, height: u16) -> Co5300<u8> {
    match Co5300::new(7680, 7680, width, height) {
        Ok(display) => display,
        Err(_) => panic!("the buffers are large enough"),
    }
}

#[test]
fn buffers_must_hold_a_band() {
    assert!(matches!(
        Co5300::<u8>::new(7680, 7680, 481, 480),
        Err(Error::BufferTooSmall)
    ));
    assert!(matches!(
        Co5300::<u8>::new(127, 7680, 8, 480),
        Err(Error::BufferTooSmall)
    ));
    assert!(matches!(
        Co5300::<u8>::new(7680, 127, 8, 480),
        Err(Error::BufferTooSmall)
    ));
    assert!(Co5300::<u8>::new(128, 128, 8, 480).is_ok());
}

/// Draw a line and expect it to be taken without a flush.
fn draw(display: &mut Co5300<u8>, line: usize, start: usize, end: usize) -> (usize, usize) {
    match display.process_line(line, start, end) {
        LineStep::Render { begin, end: last } => {
            display.line_rendered(line, start, end);
            (begin, last)
        }
        _ => panic!("the line was to be drawn"),
    }
}

fn started(plan: &FlushPlan) -> Vec<Payload> {
    let mut payloads = Vec::new();
    for op in &plan.ops {
        if let BusOp::Start(transfer) = op {
            payloads.push(transfer.payload);
        }
    }
    payloads
}

#[test]
fn touching_spans_join_into_rectangles() {
    let mut display = display(16, 32);
    assert_eq!(draw(&mut display, 8, 2, 6), (2, 6));
    assert_eq!(draw(&mut display, 8, 10, 12), (10, 12));
    assert_eq!(draw(&mut display, 9, 2, 6), (18, 22));
    assert_eq!(draw(&mut display, 9, 10, 12), (26, 28));
    let plan = display.flush_band();
    assert!(plan.complete);
    assert_eq!(
        started(&plan),
        vec![
            Payload::Rows {
                begin: 4,
                row_bytes: 8,
                rows: 2,
                stride: 32
            },
            Payload::Rows {
                begin: 20,
                row_bytes: 4,
                rows: 2,
                stride: 32
            },
        ]
    );
    assert_eq!(
        &plan.ops[..3],
        &command(0x2a, Payload::Bounds { first: 2, last: 5 })
    );
    assert_eq!(
        &plan.ops[3..6],
        &command(0x2b, Payload::Bounds { first: 8, last: 9 })
    );
    // The second rectangle waits for the first.
    assert_eq!(plan.ops[11], BusOp::Finish);
    assert_eq!(plan.ops[12], BusOp::Deselect);
}

#[test]
fn leaving_a_band_flushes_it() {
    let mut display = display(16, 32);
    draw(&mut display, 0, 0, 2);
    draw(&mut display, 1, 0, 2);
    assert_eq!(display.process_line(8, 0, 2), LineStep::Flush);
    let plan = display.flush_band();
    assert_eq!(started(&plan).len(), 1);
    assert!(display.line_flushed(&plan, None).is_empty());
    draw(&mut display, 8, 0, 2);
    draw(&mut display, 9, 0, 2);
    let plan = display.finish_frame();
    assert_eq!(plan.ops[0], BusOp::Finish);
    let end = display.frame_finished(&plan, None);
    assert!(matches!(end.result, Ok(2)));
    assert_eq!(end.closing, vec![BusOp::Finish, BusOp::Deselect]);
    // The next frame starts afresh.
    let plan = display.finish_frame();
    assert!(plan.ops.is_empty());
    let end = display.frame_finished(&plan, None);
    assert!(matches!(end.result, Ok(0)));
    assert!(end.closing.is_empty());
}

#[test]
fn lines_outside_the_panel_spoil_the_frame() {
    for (line, start, end) in [(32, 0, 2), (0, 0, 18)] {
        let mut display = display(16, 32);
        assert_eq!(display.process_line(line, start, end), LineStep::Skip);
        // The rest of the frame is left out.
        assert_eq!(display.process_line(0, 0, 2), LineStep::Skip);
        let plan = display.finish_frame();
        assert!(plan.ops.is_empty());
        let finished = display.frame_finished(&plan, None);
        assert!(matches!(finished.result, Err(Error::InvalidRegion)));
        // The next frame is not.
        draw(&mut display, 0, 0, 2);
    }
}

#[test]
fn empty_ranges_are_skipped() {
    let mut display = display(16, 32);
    assert_eq!(display.process_line(0, 4, 4), LineStep::Skip);
    assert_eq!(display.process_line(99, 4, 3), LineStep::Skip);
    assert!(display.finish_frame().ops.is_empty());
}

#[test]
fn odd_rectangles_are_refused() {
    let mut display = display(16, 32);
    draw(&mut display, 0, 0, 2);
    draw(&mut display, 1, 0, 2);
    draw(&mut display, 2, 0, 4);
    let plan = display.flush_band();
    assert!(!plan.complete);
    assert_eq!(started(&plan).len(), 1);
    let end = display.frame_finished(&plan, None);
    assert!(matches!(end.result, Err(Error::InvalidRegion)));
    assert_eq!(end.closing, vec![BusOp::Finish, BusOp::Deselect]);
}

#[test]
fn too_many_spans_spoil_the_frame() {
    let mut display = display(480, 480);
    for part in 0..32 {
        draw(&mut display, 0, part * 4, part * 4 + 2);
    }
    draw(&mut display, 0, 400, 402);
    assert_eq!(display.process_line(0, 0, 2), LineStep::Skip);
    let plan = display.finish_frame();
    let end = display.frame_finished(&plan, None);
    assert!(matches!(end.result, Err(Error::InvalidRegion)));
}

#[test]
fn bus_failures_spoil_the_frame() {
    let mut display = display(16, 32);
    draw(&mut display, 0, 0, 2);
    draw(&mut display, 1, 0, 2);
    let plan = display.flush_band();
    let closing = display.line_flushed(&plan, Some((1, Error::Spi(7))));
    assert_eq!(closing, vec![BusOp::Deselect]);
    assert_eq!(display.process_line(8, 0, 2), LineStep::Skip);
    let plan = display.finish_frame();
    let end = display.frame_finished(&plan, None);
    assert!(matches!(end.result, Err(Error::Spi(7))));
    assert!(end.closing.is_empty());

    draw(&mut display, 0, 0, 2);
    draw(&mut display, 1, 0, 2);
    let plan = display.finish_frame();
    let failed = plan.ops.len() - 1;
    let end = display.frame_finished(&plan, Some((failed, Error::MissingResource)));
    assert!(matches!(end.result, Err(Error::MissingResource)));
    assert_eq!(end.closing, vec![BusOp::Deselect]);
}

#[test]
fn commands_wait_for_the_transfer_in_the_background() {
    let mut display = display(16, 32);
    draw(&mut display, 0, 0, 2);
    draw(&mut display, 1, 0, 2);
    let plan = display.flush_band();
    assert!(display.line_flushed(&plan, None).is_empty());
    let ops = display.set_brightness(13);
    assert_eq!(&ops[..2], &[BusOp::Finish, BusOp::Deselect]);
    assert_eq!(&ops[2..], &command(0x51, Payload::Byte(13)));
    assert_eq!(display.wake(), command(0x11, Payload::Nothing));
    assert_eq!(display.display_on(), command(0x29, Payload::Nothing));
    assert_eq!(display.sleep().len(), 6);
    assert_eq!(display.init().len(), 42);
}

#[test]
fn staged_rows_are_the_drawn_pixels() {
    let mut display = display(4, 8);
    let mut render = vec![0u8; 4 * 8 * 2];
    for line in 2..4 {
        let (begin, end) = draw(&mut display, line, 2, 4);
        for pixel in begin..end {
            render[pixel * 2] = (line * 16 + pixel) as u8;
            render[pixel * 2 + 1] = 0xff;
        }
    }
    let plan = display.flush_band();
    let mut transmit = vec![0xeeu8; 16];
    for payload in started(&plan) {
        if let Payload::Rows {
            begin,
            row_bytes,
            rows,
            stride,
        } = payload
        {
            let length = stage_rows(&render, begin, row_bytes, rows, stride, &mut transmit);
            assert_eq!(length, 8);
        }
    }
    assert_eq!(
        transmit,
        vec![42, 0xff, 43, 0xff, 62, 0xff, 63, 0xff, 0xee, 0xee, 0xee, 0xee, 0xee, 0xee, 0xee, 0xee]
    );
}

#[test]
fn failed_uploads_release_the_panel() {
    let outcome = || region::Upload::<u8> {
        ops: Vec::new(),
        outcome: Ok(3),
    };
    let end = region::uploaded(outcome(), None);
    assert!(end.closing.is_empty());
    assert!(matches!(end.result, Ok(3)));
    let end = region::uploaded(outcome(), Some(7));
    assert_eq!(end.closing, vec![BusOp::Deselect]);
    assert!(matches!(end.result, Err(region::Error::Spi(7))));

    let end = region::commanded::<u8>(None);
    assert!(end.closing.is_empty());
    assert!(end.result.is_ok());
    let end = region::commanded(Some(7));
    assert_eq!(end.closing, vec![BusOp::Deselect]);
    assert!(matches!(end.result, Err(region::Error::Spi(7))));
    assert_eq!(panel::release(true), vec![BusOp::Deselect]);
    assert!(panel::release(false).is_empty());
}
