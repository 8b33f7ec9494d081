//! What a run records: printed lines, sleeps and canvas frames, in order.
use vstd::prelude::*;
use vstd::string::*;

verus! {

broadcast use vstd::seq::group_seq_axioms;

/// One drawing command. Coordinates and sizes are IEEE-754 double bits.
#[derive(Debug)]
pub enum CanvasCommand {
    Clear { background: String },
    Dot { x: u64, y: u64, color: String, size: u64 },
    FillRect { x: u64, y: u64, width: u64, height: u64, color: String },
    FillText { text: String, x: u64, y: u64, color: String, size: u64 },
}

/// The commands drawn between two clears or sleeps.
#[derive(Debug)]
pub struct CanvasFrame {
    pub commands: Vec<CanvasCommand>,
}

/// Something a run did that an observer sees.
#[derive(Debug)]
pub enum ExecutionEvent {
    Output { text: String },
    /// Seconds as IEEE-754 double bits.
    Sleep { seconds: u64 },
    CanvasFrame { frame: CanvasFrame },
}

/// What a finished run hands back.
#[derive(Debug)]
pub struct ExecutionResult {
    pub output: Vec<String>,
    pub canvas_frames: Vec<CanvasFrame>,
    pub events: Vec<ExecutionEvent>,
}

pub enum CommandView {
    Clear { background: Seq<char> },
    Dot { x: u64, y: u64, color: Seq<char>, size: u64 },
    FillRect { x: u64, y: u64, width: u64, height: u64, color: Seq<char> },
    FillText { text: Seq<char>, x: u64, y: u64, color: Seq<char>, size: u64 },
}

pub enum EventView {
    Output(Seq<char>),
    Sleep(u64),
    Frame(Seq<CommandView>),
}

impl View for CanvasCommand {
    type V = CommandView;

    open spec fn view(&self) -> CommandView {
        match self {
            CanvasCommand::Clear { background } => CommandView::Clear { background: background@ },
            CanvasCommand::Dot { x, y, color, size } => CommandView::Dot { x: *x, y: *y, color: color@, size: *size },
            CanvasCommand::FillRect { x, y, width, height, color } => CommandView::FillRect {
                x: *x,
                y: *y,
                width: *width,
                height: *height,
                color: color@,
            },
            CanvasCommand::FillText { text, x, y, color, size } => CommandView::FillText {
                text: text@,
                x: *x,
                y: *y,
                color: color@,
                size: *size,
            },
        }
    }
}

pub open spec fn commands_view(s: Seq<CanvasCommand>) -> Seq<CommandView> {
    s.map_values(|c: CanvasCommand| c@)
}

impl View for CanvasFrame {
    type V = Seq<CommandView>;

    open spec fn view(&self) -> Seq<CommandView> {
        commands_view(self.commands@)
    }
}

impl View for ExecutionEvent {
    type V = EventView;

    open spec fn view(&self) -> EventView {
        match self {
            ExecutionEvent::Output { text } => EventView::Output(text@),
            ExecutionEvent::Sleep { seconds } => EventView::Sleep(*seconds),
            ExecutionEvent::CanvasFrame { frame } => EventView::Frame(frame@),
        }
    }
}

pub open spec fn events_view(s: Seq<ExecutionEvent>) -> Seq<EventView> {
    s.map_values(|e: ExecutionEvent| e@)
}

pub open spec fn frames_view(s: Seq<CanvasFrame>) -> Seq<Seq<CommandView>> {
    s.map_values(|f: CanvasFrame| f@)
}

pub open spec fn texts_view(s: Seq<String>) -> Seq<Seq<char>> {
    s.map_values(|t: String| t@)
}

/// The printed lines among the events, in order.
pub open spec fn output_of(events: Seq<EventView>) -> Seq<Seq<char>>
    decreases events.len(),
{
    if events.len() == 0 {
        Seq::empty()
    } else {
        match events.last() {
            EventView::Output(t) => output_of(events.drop_last()).push(t),
            _ => output_of(events.drop_last()),
        }
    }
}

/// The canvas frames among the events, in order.
pub open spec fn frames_of(events: Seq<EventView>) -> Seq<Seq<CommandView>>
    decreases events.len(),
{
    if events.len() == 0 {
        Seq::empty()
    } else {
        match events.last() {
            EventView::Frame(f) => frames_of(events.drop_last()).push(f),
            _ => frames_of(events.drop_last()),
        }
    }
}

impl CanvasCommand {
    /// A copy of the command.
    pub fn copy(&self) -> (r: CanvasCommand)
        ensures
            r@ == self@,
    {
        match self {
            CanvasCommand::Clear { background } => CanvasCommand::Clear { background: background.clone() },
            CanvasCommand::Dot { x, y, color, size } => CanvasCommand::Dot { x: *x, y: *y, color: color.clone(), size: *size },
            CanvasCommand::FillRect { x, y, width, height, color } => CanvasCommand::FillRect {
                x: *x,
                y: *y,
                width: *width,
                height: *height,
                color: color.clone(),
            },
            CanvasCommand::FillText { text, x, y, color, size } => CanvasCommand::FillText {
                text: text.clone(),
                x: *x,
                y: *y,
                color: color.clone(),
                size: *size,
            },
        }
    }
}

impl CanvasFrame {
    /// A copy of the frame.
    pub fn copy(&self) -> (r: CanvasFrame)
        ensures
            r@ == self@,
    {
        let mut commands: Vec<CanvasCommand> = Vec::new();
        let mut i: usize = 0;
        while i < self.commands.len()
            invariant
                i <= self.commands@.len(),
                commands@.len() == i,
                forall|k: int| 0 <= k < i ==> (#[trigger] commands@[k])@ == self.commands@[k]@,
            decreases self.commands@.len() - i,
        {
            commands.push(self.commands[i].copy());
            i = i + 1;
        }
        assert(commands_view(commands@) =~= commands_view(self.commands@));
        CanvasFrame { commands }
    }
}

/// The record of a run in progress: every printed line (over all runs of
/// a session), the canvas commands not yet closed into a frame, the frames
/// and the events of this run.
#[derive(Debug)]
pub struct Recorder {
    pub output: Vec<String>,
    pub current: Vec<CanvasCommand>,
    pub frames: Vec<CanvasFrame>,
    pub events: Vec<ExecutionEvent>,
    pub run_start: usize,
}

impl Recorder {
    /// The frames are exactly the frame events, and the lines printed in
    /// this run are exactly the output events, each in order; every frame
    /// holds a command.
    pub open spec fn inv(&self) -> bool {
        &&& self.run_start <= self.output@.len()
        &&& frames_view(self.frames@) == frames_of(events_view(self.events@))
        &&& texts_view(self.output@).skip(self.run_start as int) == output_of(events_view(self.events@))
        &&& forall|i: int| 0 <= i < self.frames@.len() ==> (#[trigger] self.frames@[i]).commands@.len() > 0
    }

    /// An empty record.
    pub fn new() -> (r: Recorder)
        ensures
            r.inv(),
            r.output@.len() == 0,
            r.current@.len() == 0,
            r.frames@.len() == 0,
            r.events@.len() == 0,
            r.run_start == 0,
    {
        let r = Recorder { output: Vec::new(), current: Vec::new(), frames: Vec::new(), events: Vec::new(), run_start: 0 };
        assert(frames_view(r.frames@) =~= frames_of(events_view(r.events@)));
        assert(texts_view(r.output@).skip(0) =~= output_of(events_view(r.events@)));
        r
    }

    /// Starts a new run: forgets this run's canvas and events, keeps the lines printed so far.
    pub fn start_run(&mut self)
        ensures
            final(self).inv(),
            final(self).output@ == old(self).output@,
            final(self).run_start == old(self).output@.len(),
            final(self).current@.len() == 0,
            final(self).frames@.len() == 0,
            final(self).events@.len() == 0,
    {
        self.current.clear();
        self.frames.clear();
        self.events.clear();
        self.run_start = self.output.len();
        assert(frames_view(self.frames@) =~= frames_of(events_view(self.events@)));
        assert(texts_view(self.output@).skip(self.run_start as int) =~= output_of(events_view(self.events@)));
    }

    /// Records a printed line.
    pub fn print(&mut self, text: String)
        requires
            old(self).inv(),
        ensures
            final(self).inv(),
            texts_view(final(self).output@) == texts_view(old(self).output@).push(text@),
            events_view(final(self).events@) == events_view(old(self).events@).push(EventView::Output(text@)),
            final(self).current@ == old(self).current@,
            final(self).frames@ == old(self).frames@,
            final(self).run_start == old(self).run_start,
    {
        let copy = text.clone();
        self.output.push(text);
        self.events.push(ExecutionEvent::Output { text: copy });
        proof {
            let ev = events_view(self.events@);
            assert(ev =~= events_view(old(self).events@).push(EventView::Output(text@)));
            assert(ev.drop_last() =~= events_view(old(self).events@));
            assert(texts_view(self.output@) =~= texts_view(old(self).output@).push(text@));
            assert(texts_view(self.output@).skip(self.run_start as int) =~= texts_view(old(self).output@).skip(
                self.run_start as int,
            ).push(text@));
        }
    }

    /// Closes the open canvas commands into a frame, if there are any.
    pub fn finish_frame(&mut self)
        requires
            old(self).inv(),
        ensures
            final(self).inv(),
            final(self).output@ == old(self).output@,
            final(self).run_start == old(self).run_start,
            final(self).current@.len() == 0,
            events_view(old(self).events@).is_prefix_of(events_view(final(self).events@)),
            old(self).current@.len() == 0 ==> *final(self) == *old(self),
            old(self).current@.len() > 0 ==> {
                &&& frames_view(final(self).frames@) == frames_view(old(self).frames@).push(commands_view(old(self).current@))
                &&& events_view(final(self).events@) == events_view(old(self).events@).push(
                    EventView::Frame(commands_view(old(self).current@)),
                )
            },
    {
        if self.current.len() == 0 {
            proof {
                let o = events_view(old(self).events@);
                assert(o =~= o.subrange(0, o.len() as int));
            }
            return;
        }
        let mut commands: Vec<CanvasCommand> = Vec::new();
        std::mem::swap(&mut commands, &mut self.current);
        let frame = CanvasFrame { commands };
        let copy = frame.copy();
        self.frames.push(copy);
        self.events.push(ExecutionEvent::CanvasFrame { frame });
        proof {
            let ev = events_view(self.events@);
            assert(ev =~= events_view(old(self).events@).push(EventView::Frame(commands_view(old(self).current@))));
            assert(ev.drop_last() =~= events_view(old(self).events@));
            assert(frames_view(self.frames@) =~= frames_view(old(self).frames@).push(commands_view(old(self).current@)));
            let o = events_view(old(self).events@);
            assert(o =~= ev.subrange(0, o.len() as int));
            assert forall|i: int| 0 <= i < self.frames@.len() implies (#[trigger] self.frames@[i]).commands@.len() > 0 by {
                if i < old(self).frames@.len() {
                    assert(self.frames@[i] == old(self).frames@[i]);
                } else {
                    assert(frames_view(self.frames@)[i] == commands_view(old(self).current@));
                    assert(self.frames@[i]@ == commands_view(self.frames@[i].commands@));
                }
            }
        }
    }

    /// Closes the open frame, then records a sleep.
    pub fn sleep(&mut self, seconds: u64)
        requires
            old(self).inv(),
        ensures
            final(self).inv(),
            final(self).output@ == old(self).output@,
            final(self).run_start == old(self).run_start,
            final(self).current@.len() == 0,
            events_view(old(self).events@).is_prefix_of(events_view(final(self).events@)),
            events_view(final(self).events@).last() == EventView::Sleep(seconds),
            old(self).current@.len() == 0 ==> frames_view(final(self).frames@) == frames_view(old(self).frames@)
                && events_view(final(self).events@) == events_view(old(self).events@).push(EventView::Sleep(seconds)),
            old(self).current@.len() > 0 ==> frames_view(final(self).frames@) == frames_view(old(self).frames@).push(commands_view(old(self).current@))
                && events_view(final(self).events@) == events_view(old(self).events@).push(EventView::Frame(commands_view(old(self).current@))).push(
                EventView::Sleep(seconds)),
    {
        self.finish_frame();
        let ghost mid = *self;
        self.events.push(ExecutionEvent::Sleep { seconds });
        proof {
            let ev = events_view(self.events@);
            assert(ev.drop_last() =~= events_view(mid.events@));
            let o = events_view(old(self).events@);
            assert(o =~= ev.subrange(0, o.len() as int));
        }
    }

    /// Adds a drawing command to the open frame.
    pub fn draw(&mut self, command: CanvasCommand)
        requires
            old(self).inv(),
        ensures
            final(self).inv(),
            commands_view(final(self).current@) == commands_view(old(self).current@).push(command@),
            final(self).output@ == old(self).output@,
            final(self).frames@ == old(self).frames@,
            final(self).events@ == old(self).events@,
            final(self).run_start == old(self).run_start,
    {
        self.current.push(command);
        assert(commands_view(self.current@) =~= commands_view(old(self).current@).push(command@));
    }

    /// Starts a new frame for a clear: closes the open one if it has commands.
    pub fn begin_frame(&mut self)
        requires
            old(self).inv(),
        ensures
            final(self).inv(),
            final(self).output@ == old(self).output@,
            final(self).run_start == old(self).run_start,
            final(self).current@.len() == 0,
            events_view(old(self).events@).is_prefix_of(events_view(final(self).events@)),
            old(self).current@.len() == 0 ==> *final(self) == *old(self),
            old(self).current@.len() > 0 ==> {
                &&& frames_view(final(self).frames@) == frames_view(old(self).frames@).push(commands_view(old(self).current@))
                &&& events_view(final(self).events@) == events_view(old(self).events@).push(
                    EventView::Frame(commands_view(old(self).current@)),
                )
            },
    {
        if self.current.len() > 0 {
            self.finish_frame();
        } else {
            proof {
                let o = events_view(old(self).events@);
                assert(o =~= o.subrange(0, o.len() as int));
            }
        }
    }

    /// The record of the run: this run's lines, frames and events.
    pub fn result(&self) -> (r: ExecutionResult)
        requires
            self.inv(),
        ensures
            texts_view(r.output@) == texts_view(self.output@).skip(self.run_start as int),
            frames_view(r.canvas_frames@) == frames_view(self.frames@),
            events_view(r.events@) == events_view(self.events@),
            texts_view(r.output@) == output_of(events_view(r.events@)),
            frames_view(r.canvas_frames@) == frames_of(events_view(r.events@)),
    {
        let mut output: Vec<String> = Vec::new();
        let mut i: usize = self.run_start;
        while i < self.output.len()
            invariant
                self.run_start <= i <= self.output@.len(),
                output@.len() == i - self.run_start,
                forall|k: int| 0 <= k < output@.len() ==> (#[trigger] output@[k])@ == self.output@[self.run_start + k]@,
            decreases self.output@.len() - i,
        {
            output.push(self.output[i].clone());
            i = i + 1;
        }
        let mut canvas_frames: Vec<CanvasFrame> = Vec::new();
        let mut j: usize = 0;
        while j < self.frames.len()
            invariant
                j <= self.frames@.len(),
                canvas_frames@.len() == j,
                forall|k: int| 0 <= k < j ==> (#[trigger] canvas_frames@[k])@ == self.frames@[k]@,
            decreases self.frames@.len() - j,
        {
            canvas_frames.push(self.frames[j].copy());
            j = j + 1;
        }
        let mut events: Vec<ExecutionEvent> = Vec::new();
        let mut e: usize = 0;
        while e < self.events.len()
            invariant
                e <= self.events@.len(),
                events@.len() == e,
                forall|k: int| 0 <= k < e ==> (#[trigger] events@[k])@ == self.events@[k]@,
            decreases self.events@.len() - e,
        {
            let ev = match &self.events[e] {
                ExecutionEvent::Output { text } => ExecutionEvent::Output { text: text.clone() },
                ExecutionEvent::Sleep { seconds } => ExecutionEvent::Sleep { seconds: *seconds },
                ExecutionEvent::CanvasFrame { frame } => ExecutionEvent::CanvasFrame { frame: frame.copy() },
            };
            events.push(ev);
            e = e + 1;
        }
        assert(texts_view(output@) =~= texts_view(self.output@).skip(self.run_start as int));
        assert(frames_view(canvas_frames@) =~= frames_view(self.frames@));
        assert(events_view(events@) =~= events_view(self.events@));
        ExecutionResult { output, canvas_frames, events }
    }
}

} // verus!
