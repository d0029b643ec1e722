//! Devices that answer HID++ requests from a script, for exercising code that
//! talks to devices.

use vstd::prelude::*;

use crate::feature;
use crate::feature::be16;
use crate::smartshift::WheelMode;

verus! {

/// A reply: whether it is a long report, and its payload up to the last byte that
/// is not zero padding.
#[verifier::ext_equal]
pub struct ReplyView {
    pub long: bool,
    pub payload: Seq<u8>,
}

struct Reply {
    long: bool,
    payload: Vec<u8>,
}

/// A short reply with `payload`.
pub open spec fn short_reply(payload: Seq<u8>) -> Option<ReplyView> {
    Some(ReplyView { long: false, payload })
}

/// A long reply with `payload`.
pub open spec fn long_reply(payload: Seq<u8>) -> Option<ReplyView> {
    Some(ReplyView { long: true, payload })
}

/// `payload`, padded with zeros to the sixteen bytes of a long report.
pub open spec fn padded(payload: Seq<u8>) -> Seq<u8> {
    Seq::new(
        16,
        |i: int|
            if i < payload.len() {
                payload[i]
            } else {
                0
            },
    )
}

/// The report that carries `reply` to `request`: it echoes the device, the feature
/// and the function of the request.
pub open spec fn report(request: Seq<u8>, reply: ReplyView) -> Seq<u8> {
    seq![
        if reply.long {
            0x11u8
        } else {
            0x10u8
        },
        request[1],
        request[2],
        request[3],
    ] + padded(reply.payload).take(
        if reply.long {
            16
        } else {
            3
        },
    )
}

/// Whether `request` is a short or long HID++ report.
pub open spec fn is_request(request: Seq<u8>) -> bool {
    request.len() >= 7 && (request[0] == 0x10 || request[0] == 0x11)
}

/// Index of the feature that `request` calls.
pub open spec fn called_feature(request: Seq<u8>) -> u8 {
    request[2]
}

/// Number of the function that `request` calls.
pub open spec fn called_function(request: Seq<u8>) -> u8 {
    request[3] / 16
}

/// Whether `response` is how a device that answers with `reply` responds: reports
/// that are no requests, and calls it does not know, get no response.
pub open spec fn responds(
    request: Seq<u8>,
    reply: Option<ReplyView>,
    response: Option<Vec<u8>>,
) -> bool {
    match response {
        Some(bytes) => is_request(request) && reply is Some && bytes@ == report(request, reply->0),
        None => !is_request(request) || reply is None,
    }
}

fn respond(request: &[u8], reply: Reply) -> (response: Vec<u8>)
    requires
        request.len() >= 7,
    ensures
        response@ == report(request@, (ReplyView { long: reply.long, payload: reply.payload@ })),
{
    let mut response: Vec<u8> = Vec::new();
    response.push(
        if reply.long {
            0x11
        } else {
            0x10
        },
    );
    response.push(request[1]);
    response.push(request[2]);
    response.push(request[3]);
    let payload_len: usize = if reply.long {
        16
    } else {
        3
    };
    let ghost all = report(request@, (ReplyView { long: reply.long, payload: reply.payload@ }));
    assert(response@ =~= all.take(4));
    let mut i: usize = 0;
    while i < payload_len
        invariant
            i <= payload_len,
            payload_len == (if reply.long {
                16int
            } else {
                3
            }),
            request.len() >= 7,
            all == report(request@, (ReplyView { long: reply.long, payload: reply.payload@ })),
            response@ == all.take(4 + i),
        decreases payload_len - i,
    {
        let byte: u8 = if i < reply.payload.len() {
            reply.payload[i]
        } else {
            0
        };
        response.push(byte);
        assert(response@ =~= all.take(4 + (i + 1)));
        i += 1;
    }
    assert(all.take(4 + i) =~= all);
    response
}

fn reply_to(request: &[u8], reply: Option<Reply>) -> (response: Option<Vec<u8>>)
    requires
        is_request(request@),
    ensures
        responds(request@, view_of(reply), response),
{
    match reply {
        Some(reply) => Some(respond(request, reply)),
        None => None,
    }
}

spec fn view_of(reply: Option<Reply>) -> Option<ReplyView> {
    match reply {
        Some(reply) => Some(ReplyView { long: reply.long, payload: reply.payload@ }),
        None => None,
    }
}

fn short(payload: Vec<u8>) -> (reply: Option<Reply>)
    ensures
        view_of(reply) == short_reply(payload@),
{
    Some(Reply { long: false, payload })
}

fn long(payload: Vec<u8>) -> (reply: Option<Reply>)
    ensures
        view_of(reply) == long_reply(payload@),
{
    Some(Reply { long: true, payload })
}

/// Index of feature `id` on a mouse with `0x2201` AdjustableDpi, enhanced
/// SmartShift and per-key lighting; zero for features that it lacks.
pub open spec fn mouse_feature_index(id: u16) -> u8 {
    if id == 0x2201 {
        0x05
    } else if id == 0x2111 {
        0x06
    } else if id == 0x8080 {
        0x07
    } else {
        0x00
    }
}

/// What that mouse answers: it speaks version 4, has one sensor at 800 DPI that
/// supports 400, 800 and 1600, and its wheel ratchets. Raw lighting frames get no
/// reply.
pub open spec fn mouse_reply(request: Seq<u8>) -> Option<ReplyView> {
    let feature = called_feature(request);
    let function = called_function(request);
    if feature == 0x00 && function == 0x01 {
        short_reply(seq![4])
    } else if feature == 0x00 && function == 0x00 {
        short_reply(seq![mouse_feature_index(feature::be16_at(request, 4))])
    } else if feature == 0x05 && function == 0x00 {
        short_reply(seq![1])
    } else if feature == 0x05 && function == 0x02 {
        short_reply(seq![0u8] + feature::be_bytes(800))
    } else if feature == 0x05 && function == 0x01 {
        long_reply(
            seq![0u8] + feature::be_bytes(400) + feature::be_bytes(800) + feature::be_bytes(1600),
        )
    } else if feature == 0x06 && function == 0x01 {
        short_reply(seq![WheelMode::Ratchet.wire(), 10, 33])
    } else {
        None
    }
}

/// The response of a mouse with `0x2201` AdjustableDpi, enhanced SmartShift and
/// per-key lighting.
pub fn scripted_response(request: &[u8]) -> (response: Option<Vec<u8>>)
    ensures
        responds(request@, mouse_reply(request@), response),
{
    if request.len() < 7 || !(request[0] == 0x10 || request[0] == 0x11) {
        return None;
    }
    let feature: u8 = request[2];
    let function: u8 = request[3] / 16;
    let reply = match (feature, function) {
        (0x00, 0x01) => short(vec![4]),
        (0x00, 0x00) => {
            let index: u8 = match be16(request, 4) {
                0x2201 => 0x05,
                0x2111 => 0x06,
                0x8080 => 0x07,
                _ => 0x00,
            };
            short(vec![index])
        },
        (0x05, 0x00) => short(vec![1]),
        (0x05, 0x02) => short(vec![0, 0x03, 0x20]),
        (0x05, 0x01) => long(vec![0, 0x01, 0x90, 0x03, 0x20, 0x06, 0x40]),
        (0x06, 0x01) => short(vec![u8::from(WheelMode::Ratchet), 10, 33]),
        _ => None,
    };
    proof {
        if let Some(expected) = mouse_reply(request@) {
            assert(view_of(reply)->0.payload =~= expected.payload);
        }
    }
    reply_to(request, reply)
}

/// Lift-off distance `MEDIUM` on the wire.
pub const LIFT_OFF_MEDIUM: u8 = 1;

/// What a mouse with `0x2202` ExtendedAdjustableDpi and no `0x2201` answers: its
/// sensor is at 800 DPI, supports 400 to 800 in steps of 100 and 1200, and has no
/// independent Y axis. Writes are echoed.
pub open spec fn extended_dpi_reply(request: Seq<u8>) -> Option<ReplyView> {
    let feature = called_feature(request);
    let function = called_function(request);
    if feature == 0x00 && function == 0x01 {
        short_reply(seq![4])
    } else if feature == 0x00 && function == 0x00 {
        short_reply(
            seq![
                if feature::be16_at(request, 4) == 0x2202 {
                    0x05
                } else {
                    0x00
                },
            ],
        )
    } else if feature == 0x05 && function == 0x00 {
        short_reply(seq![1])
    } else if feature == 0x05 && function == 0x02 {
        long_reply(
            request.subrange(4, 7) + feature::be_bytes(400) + seq![0xe0u8, 100] + feature::be_bytes(
                800,
            ) + feature::be_bytes(1200),
        )
    } else if feature == 0x05 && function == 0x05 {
        long_reply(
            seq![0u8] + feature::be_bytes(800) + feature::be_bytes(800) + seq![
                0u8,
                0,
                0,
                0,
                LIFT_OFF_MEDIUM,
            ],
        )
    } else if feature == 0x05 && function == 0x06 {
        long_reply(request.subrange(4, 10))
    } else {
        None
    }
}

/// The response of a mouse with `0x2202` ExtendedAdjustableDpi and no `0x2201`
/// AdjustableDpi. A DPI write must be a long report.
pub fn extended_dpi_scripted_response(request: &[u8]) -> (response: Option<Vec<u8>>)
    requires
        is_request(request@) && called_feature(request@) == 0x05 && called_function(request@)
            == 0x06 ==> request.len() >= 10,
    ensures
        responds(request@, extended_dpi_reply(request@), response),
{
    if request.len() < 7 || !(request[0] == 0x10 || request[0] == 0x11) {
        return None;
    }
    let feature: u8 = request[2];
    let function: u8 = request[3] / 16;
    let reply = match (feature, function) {
        (0x00, 0x01) => short(vec![4]),
        (0x00, 0x00) => {
            let index: u8 = if be16(request, 4) == 0x2202 {
                0x05
            } else {
                0x00
            };
            short(vec![index])
        },
        (0x05, 0x00) => short(vec![1]),
        (0x05, 0x02) => long(
            vec![
                request[4],
                request[5],
                request[6],
                0x01,
                0x90,
                0xe0,
                0x64,
                0x03,
                0x20,
                0x04,
                0xb0,
            ],
        ),
        (0x05, 0x05) => long(vec![0, 0x03, 0x20, 0x03, 0x20, 0, 0, 0, 0, LIFT_OFF_MEDIUM]),
        (0x05, 0x06) => long(
            vec![request[4], request[5], request[6], request[7], request[8], request[9]],
        ),
        _ => None,
    };
    proof {
        if let Some(expected) = extended_dpi_reply(request@) {
            assert(view_of(reply)->0.payload =~= expected.payload);
        }
    }
    reply_to(request, reply)
}

/// What a keyboard with `0x8081` PerKeyLighting2 and no other lighting feature
/// answers: zones 1 to 4 are present. Writes are echoed.
pub open spec fn per_key_v2_reply(request: Seq<u8>) -> Option<ReplyView> {
    let feature = called_feature(request);
    let function = called_function(request);
    if feature == 0x00 && function == 0x01 {
        short_reply(seq![4])
    } else if feature == 0x00 && function == 0x00 {
        short_reply(
            seq![
                if feature::be16_at(request, 4) == 0x8081 {
                    0x07
                } else {
                    0x00
                },
            ],
        )
    } else if feature == 0x07 && function == 0x00 {
        long_reply(
            request.subrange(4, 6).push(
                if request[5] == 0 {
                    0b0001_1110
                } else {
                    0
                },
            ),
        )
    } else if feature == 0x07 && (function == 0x06 || function == 0x07) {
        long_reply(request.subrange(4, 16))
    } else {
        None
    }
}

/// The response of a keyboard with `0x8081` PerKeyLighting2 and no other lighting
/// feature. Lighting writes must be long reports.
pub fn per_key_v2_scripted_response(request: &[u8]) -> (response: Option<Vec<u8>>)
    requires
        is_request(request@) && called_feature(request@) == 0x07 && (called_function(request@)
            == 0x06 || called_function(request@) == 0x07) ==> request.len() >= 16,
    ensures
        responds(request@, per_key_v2_reply(request@), response),
{
    if request.len() < 7 || !(request[0] == 0x10 || request[0] == 0x11) {
        return None;
    }
    let feature: u8 = request[2];
    let function: u8 = request[3] / 16;
    let reply = match (feature, function) {
        (0x00, 0x01) => short(vec![4]),
        (0x00, 0x00) => {
            let index: u8 = if be16(request, 4) == 0x8081 {
                0x07
            } else {
                0x00
            };
            short(vec![index])
        },
        (0x07, 0x00) => {
            let zones: u8 = if request[5] == 0 {
                0b0001_1110
            } else {
                0
            };
            long(vec![request[4], request[5], zones])
        },
        (0x07, 0x06) => long(echo12(request)),
        (0x07, 0x07) => long(echo12(request)),
        _ => None,
    };
    proof {
        if let Some(expected) = per_key_v2_reply(request@) {
            assert(view_of(reply)->0.payload =~= expected.payload);
        }
    }
    reply_to(request, reply)
}

fn echo12(request: &[u8]) -> (bytes: Vec<u8>)
    requires
        request.len() >= 16,
    ensures
        bytes@ == request@.subrange(4, 16),
{
    let mut bytes: Vec<u8> = Vec::new();
    let mut i: usize = 4;
    while i < 16
        invariant
            4 <= i <= 16,
            request.len() >= 16,
            bytes@ == request@.subrange(4, i as int),
        decreases 16 - i,
    {
        bytes.push(request[i]);
        i += 1;
        assert(bytes@ =~= request@.subrange(4, i as int));
    }
    bytes
}

/// A reply can be matched to its request: it names the same device, feature and
/// function, and is as long as its kind of report.
pub proof fn reply_names_its_request(request: Seq<u8>, reply: ReplyView)
    ensures
        report(request, reply).len() == (if reply.long {
            20int
        } else {
            7
        }),
        report(request, reply)[1] == request[1],
        report(request, reply)[2] == request[2],
        report(request, reply)[3] == request[3],
{
}

/// Whether `response` is a report of `size` bytes that names the device, the feature
/// and the function of `request` and carries `payload`, then zeros.
pub open spec fn carries(
    response: Option<Vec<u8>>,
    request: Seq<u8>,
    size: int,
    payload: Seq<u8>,
) -> bool {
    &&& response matches Some(bytes)
    &&& bytes.len() == size
    &&& bytes@[0] == (if size == 20 {
        0x11u8
    } else {
        0x10u8
    })
    &&& bytes@[1] == request[1]
    &&& bytes@[2] == request[2]
    &&& bytes@[3] == request[3]
    &&& forall|i: int|
        4 <= i < size ==> #[trigger] bytes@[i] == (if i - 4 < payload.len() {
            payload[i - 4]
        } else {
            0
        })
}

/// No device responds to what is no short or long report.
pub proof fn other_reports_get_no_response(
    request: Seq<u8>,
    reply: Option<ReplyView>,
    response: Option<Vec<u8>>,
)
    requires
        responds(request, reply, response),
        request.len() < 7 || (request[0] != 0x10 && request[0] != 0x11),
    ensures
        response is None,
{
}

/// What the mouse with AdjustableDpi responds to each call of its features; to any
/// other call it does not respond.
pub proof fn mouse_responses(request: Seq<u8>, response: Option<Vec<u8>>)
    requires
        request.len() >= 7,
        request[0] == 0x10 || request[0] == 0x11,
        responds(request, mouse_reply(request), response),
    ensures
        ({
            let feature = request[2];
            let function = request[3] >> 4;
            let id = 256 * request[4] + request[5];
            if feature == 0 && function == 1 {
                carries(response, request, 7, seq![4])
            } else if feature == 0 && function == 0 {
                carries(
                    response,
                    request,
                    7,
                    seq![
                        if id == 0x2201 {
                            5
                        } else if id == 0x2111 {
                            6
                        } else if id == 0x8080 {
                            7
                        } else {
                            0
                        },
                    ],
                )
            } else if feature == 5 && function == 0 {
                carries(response, request, 7, seq![1])
            } else if feature == 5 && function == 2 {
                carries(response, request, 7, seq![0, 0x03, 0x20])
            } else if feature == 5 && function == 1 {
                carries(response, request, 20, seq![0, 0x01, 0x90, 0x03, 0x20, 0x06, 0x40])
            } else if feature == 6 && function == 1 {
                carries(response, request, 7, seq![2, 10, 33])
            } else {
                response is None
            }
        }),
{
    let byte = request[3];
    assert(byte >> 4 == byte / 16) by (bit_vector);
}

/// What the mouse with ExtendedAdjustableDpi responds to each call of its features; to
/// any other call it does not respond.
pub proof fn extended_dpi_responses(request: Seq<u8>, response: Option<Vec<u8>>)
    requires
        request.len() >= 7,
        request[0] == 0x10 || request[0] == 0x11,
        request[2] == 5 && request[3] >> 4 == 6 ==> request.len() >= 10,
        responds(request, extended_dpi_reply(request), response),
    ensures
        ({
            let feature = request[2];
            let function = request[3] >> 4;
            let id = 256 * request[4] + request[5];
            if feature == 0 && function == 1 {
                carries(response, request, 7, seq![4])
            } else if feature == 0 && function == 0 {
                carries(
                    response,
                    request,
                    7,
                    seq![
                        if id == 0x2202 {
                            5
                        } else {
                            0
                        },
                    ],
                )
            } else if feature == 5 && function == 0 {
                carries(response, request, 7, seq![1])
            } else if feature == 5 && function == 2 {
                carries(
                    response,
                    request,
                    20,
                    seq![
                        request[4],
                        request[5],
                        request[6],
                        0x01,
                        0x90,
                        0xe0,
                        0x64,
                        0x03,
                        0x20,
                        0x04,
                        0xb0,
                    ],
                )
            } else if feature == 5 && function == 5 {
                carries(response, request, 20, seq![0, 0x03, 0x20, 0x03, 0x20, 0, 0, 0, 0, 1])
            } else if feature == 5 && function == 6 {
                carries(
                    response,
                    request,
                    20,
                    seq![request[4], request[5], request[6], request[7], request[8], request[9]],
                )
            } else {
                response is None
            }
        }),
{
    let byte = request[3];
    assert(byte >> 4 == byte / 16) by (bit_vector);
}

/// What the keyboard with PerKeyLighting2 responds to each call of its features: zones
/// are present on the first page only, and writes are echoed. To any other call it
/// does not respond.
pub proof fn per_key_v2_responses(request: Seq<u8>, response: Option<Vec<u8>>)
    requires
        request.len() >= 7,
        request[0] == 0x10 || request[0] == 0x11,
        request[2] == 7 && (request[3] >> 4 == 6 || request[3] >> 4 == 7) ==> request.len() >= 16,
        responds(request, per_key_v2_reply(request), response),
    ensures
        ({
            let feature = request[2];
            let function = request[3] >> 4;
            let id = 256 * request[4] + request[5];
            if feature == 0 && function == 1 {
                carries(response, request, 7, seq![4])
            } else if feature == 0 && function == 0 {
                carries(
                    response,
                    request,
                    7,
                    seq![
                        if id == 0x8081 {
                            7
                        } else {
                            0
                        },
                    ],
                )
            } else if feature == 7 && function == 0 {
                carries(
                    response,
                    request,
                    20,
                    seq![
                        request[4],
                        request[5],
                        if request[5] == 0 {
                            0x1e
                        } else {
                            0
                        },
                    ],
                )
            } else if feature == 7 && (function == 6 || function == 7) {
                carries(response, request, 20, Seq::new(12, |i: int| request[4 + i]))
            } else {
                response is None
            }
        }),
{
    let byte = request[3];
    assert(byte >> 4 == byte / 16) by (bit_vector);
}

} // verus!
