//! Scene commands, which take several frames.
use vstd::prelude::*;

use crate::base64;
use crate::base64::base64_decode;
use crate::ble::frame;
use crate::ble::frame::finish;
use crate::ble::params;

verus! {

/// The bytes of scene data that the first line holds.
pub const FIRST_LINE_DATA: usize = 14;

/// The bytes of scene data that each other line holds.
pub const LINE_DATA: usize = 17;

/// The most scene data that fits: 255 lines.
pub const MAX_SCENE_DATA: usize = 4332;

/// A scene parameter that is no base64 text.
#[derive(Clone, Copy, Debug, PartialEq, Eq, Structural)]
pub struct InvalidSceneParam;

/// How many lines `len` bytes of scene data take.
pub open spec fn line_count(len: nat) -> nat {
    if len <= FIRST_LINE_DATA {
        1
    } else {
        (1 + (len - FIRST_LINE_DATA + LINE_DATA - 1) / LINE_DATA as int) as nat
    }
}

/// Where the data of line `i` starts.
pub open spec fn line_start(i: nat) -> nat {
    if i == 0 {
        0
    } else {
        (FIRST_LINE_DATA + LINE_DATA * (i - 1)) as nat
    }
}

/// The data of line `i`.
pub open spec fn line_data(data: Seq<u8>, i: nat) -> Seq<u8> {
    let end = line_start(i + 1);
    data.subrange(
        line_start(i) as int,
        if end < data.len() {
            end as int
        } else {
            data.len() as int
        },
    )
}

/// The second byte of a line: its number, or `ff` for the last line.
pub open spec fn line_marker(len: nat, i: nat) -> u8 {
    if i + 1 == line_count(len) {
        0xff
    } else {
        i as u8
    }
}

/// Line `i`: its marker, on the first line the number of lines, and its data.
pub open spec fn scene_line(data: Seq<u8>, i: nat) -> Seq<u8> {
    if i == 0 {
        seq![0xa3u8, line_marker(data.len(), 0), 0x01, line_count(data.len()) as u8, 0x02]
            + line_data(data, 0)
    } else {
        seq![0xa3u8, line_marker(data.len(), i)] + line_data(data, i)
    }
}

/// The frames of the first `n` lines.
pub open spec fn scene_frames(data: Seq<u8>, n: nat) -> Seq<u8>
    decreases n,
{
    if n == 0 {
        Seq::<u8>::empty()
    } else {
        scene_frames(data, (n - 1) as nat) + frame::finished(scene_line(data, (n - 1) as nat))
    }
}

/// A scene command: a frame for each line of data, and one for the scene's code.
pub open spec fn scene_wire(code: u16, data: Seq<u8>) -> Seq<u8> {
    scene_frames(data, line_count(data.len())) + frame::finished(
        seq![0x33u8, 0x05, 0x04, params::low_high(code).0, params::low_high(code).1],
    )
}

/// Every frame of a scene command is valid, and there is one more of them than
/// there are lines of data.
pub proof fn scene_frames_are_valid(code: u16, data: Seq<u8>)
    requires
        data.len() <= MAX_SCENE_DATA,
    ensures
        scene_wire(code, data).len() == 20 * (line_count(data.len()) + 1),
        forall|i: int|
            0 <= i <= line_count(data.len()) ==> frame::is_valid_frame(
                #[trigger] scene_wire(code, data).subrange(20 * i, 20 * i + 20),
            ),
{
    let n = line_count(data.len());
    lines_are_valid(data, n);
    let code_line = seq![0x33u8, 0x05, 0x04, params::low_high(code).0, params::low_high(code).1];
    frame::finished_is_valid(code_line);
    let wire = scene_wire(code, data);
    assert forall|i: int| 0 <= i <= n implies frame::is_valid_frame(
        #[trigger] wire.subrange(20 * i, 20 * i + 20),
    ) by {
        if i == n {
            assert(wire.subrange(20 * i, 20 * i + 20) =~= frame::finished(code_line));
        } else {
            assert(wire.subrange(20 * i, 20 * i + 20) =~= scene_frames(data, n).subrange(
                20 * i,
                20 * i + 20,
            ));
        }
    }
}

proof fn lines_are_valid(data: Seq<u8>, n: nat)
    requires
        n <= line_count(data.len()),
    ensures
        scene_frames(data, n).len() == 20 * n,
        forall|i: int|
            0 <= i < n ==> frame::is_valid_frame(
                #[trigger] scene_frames(data, n).subrange(20 * i, 20 * i + 20),
            ),
    decreases n,
{
    if n > 0 {
        let before = (n - 1) as nat;
        lines_are_valid(data, before);
        frame::finished_is_valid(scene_line(data, before));
        let all = scene_frames(data, n);
        assert forall|i: int| 0 <= i < n implies frame::is_valid_frame(
            #[trigger] all.subrange(20 * i, 20 * i + 20),
        ) by {
            if i == before {
                assert(all.subrange(20 * i, 20 * i + 20) =~= frame::finished(
                    scene_line(data, before),
                ));
            } else {
                assert(all.subrange(20 * i, 20 * i + 20) =~= scene_frames(data, before).subrange(
                    20 * i,
                    20 * i + 20,
                ));
            }
        }
    }
}

proof fn a_line_stands_in_its_frame(data: Seq<u8>, n: nat, i: int)
    requires
        n <= line_count(data.len()),
        0 <= i < n,
    ensures
        scene_frames(data, n).len() == 20 * n,
        scene_frames(data, n).subrange(20 * i, 20 * i + 20) == frame::finished(
            scene_line(data, i as nat),
        ),
    decreases n,
{
    lines_are_valid(data, n);
    let before = (n - 1) as nat;
    lines_are_valid(data, before);
    let all = scene_frames(data, n);
    if i == before {
        assert(all.subrange(20 * i, 20 * i + 20) =~= frame::finished(scene_line(data, before)));
    } else {
        a_line_stands_in_its_frame(data, before, i);
        assert(all.subrange(20 * i, 20 * i + 20) =~= scene_frames(data, before).subrange(
            20 * i,
            20 * i + 20,
        ));
    }
}

/// A device finds every byte of a scene's data in its place: the first fourteen in
/// the first frame, behind the number of frames, and of the rest seventeen in each
/// frame that follows.
pub proof fn every_byte_of_a_scene_is_sent(code: u16, data: Seq<u8>, j: int)
    requires
        data.len() <= MAX_SCENE_DATA,
        0 <= j < data.len(),
    ensures
        j < 14 ==> scene_wire(code, data)[5 + j] == data[j],
        j >= 14 ==> ({
            let line = 1 + (j - 14) / 17;
            scene_wire(code, data)[20 * line + 2 + (j - 14) % 17] == data[j]
        }),
{
    let n = line_count(data.len());
    let wire = scene_wire(code, data);
    let line: int = if j < 14 {
        0
    } else {
        1 + (j - 14) / 17
    };
    assert(line < n);
    a_line_stands_in_its_frame(data, n, line);
    let sent = scene_line(data, line as nat);
    let f = frame::finished(sent);
    let frames = scene_frames(data, n);
    let at: int = if j < 14 {
        5 + j
    } else {
        2 + (j - 14) % 17
    };
    assert(line_data(data, line as nat)[j - line_start(line as nat)] == data[j]);
    assert(sent[at] == data[j]);
    assert(f[at] == sent[at]);
    assert(frames.subrange(20 * line, 20 * line + 20)[at] == frames[20 * line + at]);
    assert(wire[20 * line + at] == frames[20 * line + at]);
}

/// Each frame of a scene says which it is, and the last of the data that it is the
/// last; the first says how many there are. The code follows in a frame of its own,
/// its low byte first.
pub proof fn the_frames_of_a_scene_are_numbered(code: u16, data: Seq<u8>, i: int)
    requires
        data.len() <= MAX_SCENE_DATA,
        0 <= i < line_count(data.len()),
    ensures
        ({
            let n = line_count(data.len()) as int;
            let wire = scene_wire(code, data);
            &&& n <= 255
            &&& 14 + 17 * (n - 1) >= data.len()
            &&& n == 1 || 14 + 17 * (n - 2) < data.len()
            &&& wire[20 * i] == 0xa3
            &&& i + 1 == n ==> wire[20 * i + 1] == 0xff
            &&& i + 1 < n ==> wire[20 * i + 1] == i
            &&& wire[2] == 0x01 && wire[3] == n && wire[4] == 0x02
            &&& wire[20 * n] == 0x33 && wire[20 * n + 1] == 0x05 && wire[20 * n + 2] == 0x04
            &&& wire[20 * n + 3] + 256 * wire[20 * n + 4] == code
        }),
{
    let n = line_count(data.len());
    let wire = scene_wire(code, data);
    let frames = scene_frames(data, n);
    a_line_stands_in_its_frame(data, n, i);
    a_line_stands_in_its_frame(data, n, 0);
    let first = frame::finished(scene_line(data, 0));
    let f = frame::finished(scene_line(data, i as nat));
    assert(frames.subrange(0, 20)[2] == first[2] && frames.subrange(0, 20)[3] == first[3]
        && frames.subrange(0, 20)[4] == first[4]);
    assert(frames.subrange(20 * i, 20 * i + 20)[0] == f[0] && frames.subrange(20 * i, 20 * i + 20)[1]
        == f[1]);
    let last = frame::finished(
        seq![0x33u8, 0x05, 0x04, params::low_high(code).0, params::low_high(code).1],
    );
    let end = 20 * (n as int);
    assert(wire.skip(end) =~= last);
    assert forall|k: int| 0 <= k < 20 implies #[trigger] last[k] == wire[end + k] by {
        assert(wire.skip(end)[k] == wire[end + k]);
    }
}

fn append(out: &mut Vec<u8>, more: &Vec<u8>)
    ensures
        final(out)@ == old(out)@ + more@,
{
    for i in 0..more.len()
        invariant
            out@ == old(out)@ + more@.take(i as int),
    {
        out.push(more[i]);
        assert(more@.take(i + 1) =~= more@.take(i as int).push(more@[i as int]));
    }
    assert(more@.take(more@.len() as int) =~= more@);
}

/// The frames that select the scene `code` with the parameter bytes `data`.
pub fn encode_scene(code: u16, data: &[u8]) -> (r: Vec<u8>)
    requires
        data@.len() <= MAX_SCENE_DATA,
    ensures
        r@ == scene_wire(code, data@),
{
    let lines: usize = if data.len() <= FIRST_LINE_DATA {
        1
    } else {
        1 + (data.len() - FIRST_LINE_DATA + LINE_DATA - 1) / LINE_DATA
    };
    assert(lines == line_count(data@.len()));
    let mut out: Vec<u8> = Vec::new();
    let mut at: usize = 0;
    for i in 0..lines
        invariant
            data@.len() <= MAX_SCENE_DATA,
            lines == line_count(data@.len()),
            lines <= 255,
            i < lines ==> at == line_start(i as nat) && at <= data@.len(),
            out@ == scene_frames(data@, i as nat),
    {
        let marker: u8 = if i + 1 == lines {
            0xff
        } else {
            i as u8
        };
        let mut line: Vec<u8> = if i == 0 {
            vec![0xa3, marker, 0x01, lines as u8, 0x02]
        } else {
            vec![0xa3, marker]
        };
        let ghost head = line@;
        let room: usize = if i == 0 {
            FIRST_LINE_DATA
        } else {
            LINE_DATA
        };
        let end: usize = if at + room < data.len() {
            at + room
        } else {
            data.len()
        };
        let start: usize = at;
        for k in start..end
            invariant
                start <= end <= data@.len(),
                line@ == head + data@.subrange(start as int, k as int),
        {
            line.push(data[k]);
            assert(data@.subrange(start as int, k + 1) =~= data@.subrange(
                start as int,
                k as int,
            ).push(data@[k as int]));
        }
        assert(line@ =~= scene_line(data@, i as nat));
        let finished_line = finish(line);
        append(&mut out, &finished_line);
        at = end;
    }
    let code_line: Vec<u8> = vec![0x33, 0x05, 0x04, (code % 256) as u8, (code / 256) as u8];
    assert(code_line@ =~= seq![
        0x33u8,
        0x05,
        0x04,
        params::low_high(code).0,
        params::low_high(code).1,
    ]);
    let last = finish(code_line);
    append(&mut out, &last);
    out
}

/// Selects a scene. The parameter is base64 text.
#[derive(Clone, Default, Debug, PartialEq, Eq)]
pub struct SetSceneCode {
    pub code: u16,
    pub scence_param: String,
}

/// As much data fits as takes 255 lines, so that each line can be numbered. The lines
/// are no more than the data needs.
pub proof fn what_fits_can_be_numbered(len: nat)
    ensures
        len <= MAX_SCENE_DATA <==> line_count(len) <= 255,
        line_count(len) >= 1,
        14 + 17 * (line_count(len) - 1) >= len,
        line_count(len) > 1 ==> 14 + 17 * (line_count(len) - 2) < len,
{
}

impl SetSceneCode {
    /// A parameter that stands for no data is refused as such, and never for its size.
    pub proof fn only_data_can_be_too_long(&self)
        ensures
            base64::base64_data(self.scence_param@) is None ==> self.data_fits(),
            base64::base64_data(self.scence_param@) matches Some(data) ==> (self.data_fits()
                <==> line_count(data.len()) <= 255),
    {
        if let Some(data) = base64::base64_data(self.scence_param@) {
            what_fits_can_be_numbered(data.len());
        }
    }

    /// The text is short enough to be decoded.
    pub open spec fn decodable(&self) -> bool {
        self.scence_param@.len() <= usize::MAX / 32
    }

    /// What the parameter stands for fits into the lines that can be numbered.
    pub open spec fn data_fits(&self) -> bool {
        match base64::base64_data(self.scence_param@) {
            Some(data) => data.len() <= MAX_SCENE_DATA,
            None => true,
        }
    }

    pub fn new(code: u16, scence_param: String) -> (r: Self)
        ensures
            r.code == code,
            r.scence_param == scence_param,
    {
        SetSceneCode { code, scence_param }
    }

    /// The frames of this command, or an error if the parameter is no base64.
    pub fn encode(&self) -> (r: Result<Vec<u8>, InvalidSceneParam>)
        requires
            self.decodable(),
            self.data_fits(),
        ensures
            match r {
                Ok(frames) => match base64::base64_data(self.scence_param@) {
                    Some(data) => frames@ == scene_wire(self.code, data),
                    None => false,
                },
                Err(_) => base64::base64_data(self.scence_param@) is None,
            },
    {
        match base64_decode(self.scence_param.as_str()) {
            Ok(data) => Ok(encode_scene(self.code, data.as_slice())),
            Err(_) => Err(InvalidSceneParam),
        }
    }

    /// Whether the parameter fits.
    pub fn check_data_fits(&self) -> (r: bool)
        requires
            self.decodable(),
        ensures
            r == self.data_fits(),
    {
        match base64_decode(self.scence_param.as_str()) {
            Ok(data) => data.len() <= MAX_SCENE_DATA,
            Err(_) => true,
        }
    }

    /// The frames of this command; `None` if the parameter does not fit.
    pub fn encode_if_it_fits(&self) -> (r: Option<Result<Vec<u8>, InvalidSceneParam>>)
        requires
            self.decodable(),
        ensures
            match r {
                Some(Ok(frames)) => self.data_fits() && match base64::base64_data(self.scence_param@) {
                    Some(data) => frames@ == scene_wire(self.code, data),
                    None => false,
                },
                Some(Err(_)) => base64::base64_data(self.scence_param@) is None,
                None => !self.data_fits(),
            },
    {
        if self.check_data_fits() {
            Some(self.encode())
        } else {
            None
        }
    }
}

} // verus!
