use vstd::prelude::*;

use std::collections::VecDeque;

verus! {

/// Frames per row of every sprite sheet.
pub const DEFAULT_COLUMN_COUNT: u32 = 10;

/// Above this many frames a sheet is scaled down to the window's sprite grid.
pub const RESIZE_THRESHOLD: u32 = 110;

/// Frames per second of the frame loop.
pub const GLOBAL_FRAMERATE: u32 = 48;

/// The animation played once at startup.
pub const INTRO_ANIMATION: &'static str = "INTRO";

/// The animation looped while nothing else is asked for.
pub const IDLE_ANIMATION: &'static str = "IDLE";

/// The animation played on quit; when it ends the application exits.
pub const OUTRO_ANIMATION: &'static str = "OUTRO";

/// The reaction to a left click.
pub const CLICK_ANIMATION: &'static str = "CLICK";

/// The animation shown while the character is picked up.
pub const GRAB_ANIMATION: &'static str = "GRAB";

/// The animation shown when the character is put down.
pub const PAT_ANIMATION: &'static str = "PAT";

/// Why a sprite sheet could not become a texture.
#[derive(Debug, Clone, Copy, PartialEq, Eq, Structural)]
pub enum SpriteError {
    PixelLoadError,
    TextureWriteError,
}

/// Why an entity could not be loaded; the message says what the file system reported.
#[derive(Debug)]
pub enum GremlinLoadError {
    FsError(Option<String>),
}

/// Kinds of animation an entity may have.
#[derive(Clone, Copy, Debug, Hash)]
pub enum AnimationKind {
    Walk(crate::utils::DirectionX, crate::utils::DirectionY),
    Intro,
    Idle,
    Exit,
    Hover,
}

/// One animation of an entity: its name, the image it is drawn from and its frame count.
#[derive(Clone, Debug, Hash, Default)]
pub struct AnimationProperties {
    pub animation_name: String,
    pub sprite_path: Option<String>,
    pub sprite_count: u32,
}

impl AnimationProperties {
    pub fn new(name: String, sprite_count: u32) -> (r: AnimationProperties)
        ensures
            r.animation_name == name,
            r.sprite_count == sprite_count,
            r.sprite_path.is_none(),
    {
        AnimationProperties { animation_name: name, sprite_count, sprite_path: None }
    }

    /// A copy equal to `self`.
    pub fn duplicate(&self) -> (r: AnimationProperties)
        ensures
            r == *self,
    {
        let sprite_path = match &self.sprite_path {
            Some(p) => Some(p.clone()),
            None => None,
        };
        AnimationProperties {
            animation_name: self.animation_name.clone(),
            sprite_path,
            sprite_count: self.sprite_count,
        }
    }
}

/// A rectangle of a sprite sheet, in pixels.
#[derive(Debug, Clone, Copy, PartialEq, Eq, Structural)]
pub struct FrameRect {
    pub x: u64,
    pub y: u64,
    pub w: u32,
    pub h: u32,
}

/// The playback cursor of one animation: its frame and the sizes of its sheet.
#[derive(Default, Hash, Debug)]
pub struct Animator {
    pub current_frame: u32,
    pub texture_size: (u32, u32),
    pub sprite_size: (u32, u32),
    pub animation_properties: AnimationProperties,
    pub column_count: u32,
}

/// `a / b` rounded up.
pub open spec fn ceil_div(a: int, b: int) -> int {
    if a % b == 0 {
        a / b
    } else {
        a / b + 1
    }
}

proof fn lemma_mul_fits_u64(a: u32, b: u32)
    ensures
        (a as int) * (b as int) <= u64::MAX,
{
    assert((a as int) * (b as int) <= (u32::MAX as int) * (u32::MAX as int)) by (nonlinear_arith)
        requires
            a <= u32::MAX,
            b <= u32::MAX,
    ;
}

fn div_ceil_u32(a: u32, b: u32) -> (r: u32)
    requires
        b > 0,
    ensures
        r == ceil_div(a as int, b as int),
{
    if a % b == 0 {
        a / b
    } else {
        assert(b != 1);
        assert(a / b < u32::MAX) by (nonlinear_arith)
            requires
                b >= 2,
                a <= u32::MAX,
        ;
        a / b + 1
    }
}

impl Animator {
    /// The frame lies inside the animation and the grid has columns.
    pub open spec fn wf(&self) -> bool {
        &&& self.animation_properties.sprite_count > 0
        &&& self.current_frame < self.animation_properties.sprite_count
        &&& self.column_count > 0
    }

    pub open spec fn name(&self) -> Seq<char> {
        self.animation_properties.animation_name@
    }

    /// The cell of the current frame in the sheet's grid.
    pub open spec fn spec_frame_rect(&self) -> FrameRect {
        FrameRect {
            x: ((self.current_frame % self.column_count) * self.sprite_size.0) as u64,
            y: ((self.current_frame / self.column_count) * self.sprite_size.1) as u64,
            w: self.sprite_size.0,
            h: self.sprite_size.1,
        }
    }

    /// A cursor at frame 0 of a sheet drawn at its own size `w` by `h`.
    pub open spec fn spec_native(props: AnimationProperties, w: u32, h: u32) -> Animator {
        Animator {
            current_frame: 0,
            texture_size: (w, h),
            sprite_size: (
                ceil_div(w as int, DEFAULT_COLUMN_COUNT as int) as u32,
                ceil_div(
                    h as int,
                    ceil_div(props.sprite_count as int, DEFAULT_COLUMN_COUNT as int),
                ) as u32,
            ),
            animation_properties: props,
            column_count: DEFAULT_COLUMN_COUNT,
        }
    }

    /// A cursor at frame 0 of a sheet whose cells are `cell_w` by `cell_h`.
    pub open spec fn spec_fitted(props: AnimationProperties, cell_w: u32, cell_h: u32) -> Animator {
        Animator {
            current_frame: 0,
            texture_size: (
                (DEFAULT_COLUMN_COUNT * cell_w) as u32,
                (ceil_div(props.sprite_count as int, DEFAULT_COLUMN_COUNT as int) * cell_h) as u32,
            ),
            sprite_size: (cell_w, cell_h),
            animation_properties: props,
            column_count: DEFAULT_COLUMN_COUNT,
        }
    }

    /// The cursor for a sheet of `w` by `h` pixels, read at its own size.
    pub fn from_dimensions(props: AnimationProperties, w: u32, h: u32) -> (r: Animator)
        requires
            props.sprite_count > 0,
        ensures
            r == Animator::spec_native(props, w, h),
            r.wf(),
    {
        let rows = div_ceil_u32(props.sprite_count, DEFAULT_COLUMN_COUNT);
        let sprite_w = div_ceil_u32(w, DEFAULT_COLUMN_COUNT);
        let sprite_h = div_ceil_u32(h, rows);
        Animator {
            current_frame: 0,
            texture_size: (w, h),
            sprite_size: (sprite_w, sprite_h),
            animation_properties: props,
            column_count: DEFAULT_COLUMN_COUNT,
        }
    }

    /// The cursor for a sheet scaled so that each cell is `cell_w` by `cell_h`;
    /// `None` when the scaled sheet would not fit in `u32` pixels.
    pub fn fitted_to_cell(props: AnimationProperties, cell_w: u32, cell_h: u32) -> (r: Option<Animator>)
        requires
            props.sprite_count > 0,
        ensures
            r.is_some() == (DEFAULT_COLUMN_COUNT * cell_w <= u32::MAX && ceil_div(
                props.sprite_count as int,
                DEFAULT_COLUMN_COUNT as int,
            ) * cell_h <= u32::MAX),
            r.is_some() ==> r.unwrap() == Animator::spec_fitted(props, cell_w, cell_h) && r.unwrap().wf(),
    {
        let rows = div_ceil_u32(props.sprite_count, DEFAULT_COLUMN_COUNT);
        proof {
            lemma_mul_fits_u64(DEFAULT_COLUMN_COUNT, cell_w);
            lemma_mul_fits_u64(rows, cell_h);
        }
        let width = (DEFAULT_COLUMN_COUNT as u64) * (cell_w as u64);
        let height = (rows as u64) * (cell_h as u64);
        assert(height == ceil_div(props.sprite_count as int, DEFAULT_COLUMN_COUNT as int) * cell_h) by (nonlinear_arith)
            requires
                rows == ceil_div(props.sprite_count as int, DEFAULT_COLUMN_COUNT as int),
                height == rows * cell_h,
        ;
        if width > u32::MAX as u64 || height > u32::MAX as u64 {
            return None;
        }
        Some(
            Animator {
                current_frame: 0,
                texture_size: (width as u32, height as u32),
                sprite_size: (cell_w, cell_h),
                animation_properties: props,
                column_count: DEFAULT_COLUMN_COUNT,
            },
        )
    }

    /// The cell of the sheet that shows the current frame.
    pub fn get_frame_rect(&self) -> (r: FrameRect)
        requires
            self.column_count > 0,
        ensures
            r == self.spec_frame_rect(),
    {
        let col = self.current_frame % self.column_count;
        let row = self.current_frame / self.column_count;
        let (w, h) = self.sprite_size;
        proof {
            lemma_mul_fits_u64(col, w);
            lemma_mul_fits_u64(row, h);
        }
        let x = (col as u64) * (w as u64);
        let y = (row as u64) * (h as u64);
        FrameRect { x, y, w, h }
    }

    /// A copy equal to `self`.
    pub fn duplicate(&self) -> (r: Animator)
        ensures
            r == *self,
    {
        Animator {
            current_frame: self.current_frame,
            texture_size: self.texture_size,
            sprite_size: self.sprite_size,
            animation_properties: self.animation_properties.duplicate(),
            column_count: self.column_count,
        }
    }
}

/// A request to play an animation: queued behind earlier ones, or pre-empting them.
#[derive(Debug, Clone)]
pub enum GremlinTask {
    Play(String),
    PlayInterrupt(String),
}

impl GremlinTask {
    pub open spec fn is_interrupt(self) -> bool {
        self is PlayInterrupt
    }

    pub open spec fn name(self) -> Seq<char> {
        match self {
            GremlinTask::Play(n) => n@,
            GremlinTask::PlayInterrupt(n) => n@,
        }
    }

    /// The task as a plain value: whether it interrupts, and the animation it names.
    pub open spec fn spec_view(self) -> (bool, Seq<char>) {
        (self.is_interrupt(), self.name())
    }

    pub fn is_interrupting(&self) -> (r: bool)
        ensures
            r == self.is_interrupt(),
    {
        match self {
            GremlinTask::Play(_) => false,
            GremlinTask::PlayInterrupt(_) => true,
        }
    }

    /// The name of the animation the task asks for.
    pub fn animation_name(self) -> (r: String)
        ensures
            r@ == self.name(),
    {
        match self {
            GremlinTask::Play(n) => n,
            GremlinTask::PlayInterrupt(n) => n,
        }
    }
}

impl PartialEq for GremlinTask {
    fn eq(&self, other: &GremlinTask) -> (r: bool)
        ensures
            r == (self.spec_view() == other.spec_view()),
    {
        match (self, other) {
            (GremlinTask::Play(a), GremlinTask::Play(b)) => *a == *b,
            (GremlinTask::PlayInterrupt(a), GremlinTask::PlayInterrupt(b)) => *a == *b,
            _ => false,
        }
    }
}

impl vstd::std_specs::cmp::PartialEqSpecImpl for GremlinTask {
    open spec fn obeys_eq_spec() -> bool {
        true
    }

    open spec fn eq_spec(&self, other: &GremlinTask) -> bool {
        self.spec_view() == other.spec_view()
    }
}

/// The views of a run of tasks.
pub open spec fn task_views(s: Seq<GremlinTask>) -> Seq<(bool, Seq<char>)> {
    s.map_values(|t: GremlinTask| t.spec_view())
}

/// The position of the first interrupting task of `s`, or its length when there is none.
pub open spec fn first_interrupt(s: Seq<GremlinTask>) -> int
    decreases s.len(),
{
    if s.len() == 0 {
        0
    } else if s[0].is_interrupt() {
        0
    } else {
        1 + first_interrupt(s.drop_first())
    }
}

pub proof fn lemma_first_interrupt(s: Seq<GremlinTask>)
    ensures
        0 <= first_interrupt(s) <= s.len(),
        first_interrupt(s) < s.len() ==> s[first_interrupt(s)].is_interrupt(),
        forall|j: int| 0 <= j < first_interrupt(s) ==> !(#[trigger] s[j]).is_interrupt(),
    decreases s.len(),
{
    if s.len() > 0 && !s[0].is_interrupt() {
        lemma_first_interrupt(s.drop_first());
        assert forall|j: int| 0 <= j < first_interrupt(s) implies !(#[trigger] s[j]).is_interrupt() by {
            if j > 0 {
                assert(s[j] == s.drop_first()[j - 1]);
            }
        }
    }
}

/// One frame of scheduling over a queue, the channel's tasks and the ready gate:
/// the chosen task, the queue after and the channel after.
pub open spec fn schedule(queue: Seq<GremlinTask>, channel: Seq<GremlinTask>, ready: bool) -> (
    Option<GremlinTask>,
    Seq<GremlinTask>,
    Seq<GremlinTask>,
) {
    let k = first_interrupt(channel);
    let q = queue + channel;
    if k < channel.len() {
        (Some(channel[k]), Seq::empty(), channel.skip(k + 1))
    } else if ready && q.len() > 0 {
        (Some(q[0]), q.drop_first(), Seq::empty())
    } else {
        (None, q, Seq::empty())
    }
}

/// An interrupting task becomes the active task at once and discards every queued
/// task; a later drain without interrupts queues only what was sent after it, so
/// nothing discarded comes back.
pub proof fn lemma_interrupt_discards_queue(
    queue: Seq<GremlinTask>,
    channel: Seq<GremlinTask>,
    ready: bool,
    later: Seq<GremlinTask>,
    ready_later: bool,
)
    requires
        first_interrupt(channel) < channel.len(),
        forall|j: int| 0 <= j < later.len() ==> !(#[trigger] later[j]).is_interrupt(),
        forall|j: int|
            first_interrupt(channel) < j < channel.len() ==> !(#[trigger] channel[j]).is_interrupt(),
    ensures
        schedule(queue, channel, ready).0 == Some(channel[first_interrupt(channel)]),
        schedule(queue, channel, ready).1.len() == 0,
        ({
            let rest = schedule(queue, channel, ready).2 + later;
            let (r2, q2, c2) = schedule(schedule(queue, channel, ready).1, rest, ready_later);
            &&& c2.len() == 0
            &&& match r2 {
                Some(t) => seq![t] + q2 == rest,
                None => q2 == rest,
            }
        }),
{
    lemma_first_interrupt(channel);
    let k = first_interrupt(channel);
    let rest = channel.skip(k + 1) + later;
    lemma_first_interrupt(rest);
    assert forall|j: int| 0 <= j < rest.len() implies !(#[trigger] rest[j]).is_interrupt() by {
        if j < channel.len() - k - 1 {
            assert(rest[j] == channel[j + k + 1]);
        } else {
            assert(rest[j] == later[j - (channel.len() - k - 1)]);
        }
    }
    if first_interrupt(rest) < rest.len() {
        assert(rest[first_interrupt(rest)].is_interrupt());
    }
    let empty = Seq::<GremlinTask>::empty();
    assert(empty + rest =~= rest);
    if ready_later && rest.len() > 0 {
        assert(seq![rest[0]] + rest.drop_first() =~= rest);
    }
}

/// The channel through which behaviors send tasks to the scheduler, oldest first.
pub struct TaskChannel {
    pending: VecDeque<GremlinTask>,
}

impl View for TaskChannel {
    type V = Seq<GremlinTask>;

    closed spec fn view(&self) -> Seq<GremlinTask> {
        self.pending@
    }
}

impl TaskChannel {
    pub fn new() -> (r: TaskChannel)
        ensures
            r@ == Seq::<GremlinTask>::empty(),
    {
        TaskChannel { pending: VecDeque::new() }
    }

    pub fn send(&mut self, task: GremlinTask)
        ensures
            final(self)@ == old(self)@.push(task),
    {
        self.pending.push_back(task);
    }

    pub fn len(&self) -> (r: usize)
        ensures
            r == self@.len(),
    {
        self.pending.len()
    }

    /// Takes the oldest task.
    pub fn try_recv(&mut self) -> (r: Option<GremlinTask>)
        ensures
            old(self)@.len() == 0 ==> r.is_none() && final(self)@ == old(self)@,
            old(self)@.len() > 0 ==> r == Some(old(self)@[0]) && final(self)@ == old(self)@.drop_first(),
    {
        self.pending.pop_front()
    }
}

/// A loaded character: its name, metadata, animations and the active playback cursor.
pub struct Gremlin {
    pub name: String,
    pub animation_map: Vec<AnimationProperties>,
    pub metadata: Vec<(String, String)>,
    pub animator: Option<Animator>,
}

/// The last position of an animation named `name` in `s`: the one that counts
/// when a name was registered more than once.
pub open spec fn is_last_named(s: Seq<AnimationProperties>, name: Seq<char>, i: int) -> bool {
    &&& 0 <= i < s.len()
    &&& s[i].animation_name@ == name
    &&& forall|j: int| i < j < s.len() ==> (#[trigger] s[j]).animation_name@ != name
}

impl Gremlin {
    pub open spec fn wf(&self) -> bool {
        self.animator.is_some() ==> self.animator.unwrap().wf()
    }

    pub fn new(name: String) -> (r: Gremlin)
        ensures
            r.name == name,
            r.animation_map@.len() == 0,
            r.metadata@.len() == 0,
            r.animator.is_none(),
            r.wf(),
    {
        Gremlin { name, animation_map: Vec::new(), metadata: Vec::new(), animator: None }
    }

    /// The position of the animation named `name`.
    pub fn find_animation(&self, name: &String) -> (r: Option<usize>)
        ensures
            match r {
                Some(i) => is_last_named(self.animation_map@, name@, i as int),
                None => forall|j: int|
                    0 <= j < self.animation_map@.len() ==> (#[trigger] self.animation_map@[j]).animation_name@
                        != name@,
            },
    {
        let mut i: usize = self.animation_map.len();
        while i > 0
            invariant
                i <= self.animation_map@.len(),
                forall|j: int| i <= j < self.animation_map@.len() ==> (#[trigger] self.animation_map@[j]).animation_name@ != name@,
            decreases i,
        {
            i = i - 1;
            if self.animation_map[i].animation_name == *name {
                return Some(i);
            }
        }
        None
    }

    /// Registers an animation; it takes the place of any earlier one of the same name.
    pub fn insert_animation(&mut self, props: AnimationProperties)
        ensures
            final(self).name == old(self).name,
            final(self).metadata == old(self).metadata,
            final(self).animator == old(self).animator,
            final(self).animation_map@ == old(self).animation_map@.push(props),
    {
        self.animation_map.push(props);
    }

    /// Gives the animation named `name` the sheet at `path`; no change when there is none.
    pub fn set_sprite_path(&mut self, name: &String, path: String)
        ensures
            final(self).name == old(self).name,
            final(self).metadata == old(self).metadata,
            final(self).animator == old(self).animator,
            final(self).animation_map@ == with_sheet(old(self).animation_map@, name@, path),
    {
        let ghost s = self.animation_map@;
        match self.find_animation(name) {
            Some(i) => {
                proof {
                    assert forall|k: int| is_last_named(s, name@, k) implies k == i by {
                        if k < i {
                            assert(s[i as int].animation_name@ == name@);
                        } else if k > i {
                            assert(s[k].animation_name@ == name@);
                        }
                    }
                }
                let old_props = self.animation_map[i].duplicate();
                let props = AnimationProperties {
                    animation_name: old_props.animation_name,
                    sprite_path: Some(path),
                    sprite_count: old_props.sprite_count,
                };
                self.animation_map.set(i, props);
            },
            None => {},
        }
    }
}

/// The animations after the one named `name` (the last of that name) was given
/// the sheet at `path`; unchanged when there is none.
pub open spec fn with_sheet(s: Seq<AnimationProperties>, name: Seq<char>, path: String) -> Seq<
    AnimationProperties,
> {
    if exists|i: int| is_last_named(s, name, i) {
        let i = choose|i: int| is_last_named(s, name, i);
        s.update(i, AnimationProperties { sprite_path: Some(path), ..s[i] })
    } else {
        s
    }
}

/// The state that all behaviors share: the loaded character, the task queue and
/// channel, the ready gate, the exit flag and the window's place and size.
pub struct DesktopGremlin {
    pub current_gremlin: Option<Gremlin>,
    pub should_exit: bool,
    pub task_queue: VecDeque<GremlinTask>,
    pub task_channel: TaskChannel,
    pub should_check_for_action: bool,
    pub window_position: (i32, i32),
    pub window_size: (u32, u32),
}

impl DesktopGremlin {
    pub open spec fn wf(&self) -> bool {
        self.current_gremlin.is_some() ==> self.current_gremlin.unwrap().wf()
    }

    pub fn new(window_position: (i32, i32), window_size: (u32, u32)) -> (r: DesktopGremlin)
        ensures
            r.current_gremlin.is_none(),
            !r.should_exit,
            r.task_queue@.len() == 0,
            r.task_channel@.len() == 0,
            r.should_check_for_action,
            r.window_position == window_position,
            r.window_size == window_size,
            r.wf(),
    {
        DesktopGremlin {
            current_gremlin: None,
            should_exit: false,
            task_queue: VecDeque::new(),
            task_channel: TaskChannel::new(),
            should_check_for_action: true,
            window_position,
            window_size,
        }
    }

    /// Takes the tasks sent so far, oldest first. Plain tasks join the queue. The
    /// first interrupting task stops the drain, empties the queue and is returned;
    /// the tasks sent after it stay in the channel.
    pub fn drain_tasks(&mut self) -> (r: Option<GremlinTask>)
        ensures
            ({
                let s = old(self).task_channel@;
                let k = first_interrupt(s);
                if k < s.len() {
                    &&& r == Some(s[k])
                    &&& final(self).task_queue@.len() == 0
                    &&& final(self).task_channel@ == s.skip(k + 1)
                } else {
                    &&& r.is_none()
                    &&& final(self).task_queue@ == old(self).task_queue@ + s
                    &&& final(self).task_channel@.len() == 0
                }
            }),
            final(self).current_gremlin == old(self).current_gremlin,
            final(self).should_exit == old(self).should_exit,
            final(self).should_check_for_action == old(self).should_check_for_action,
            final(self).window_position == old(self).window_position,
            final(self).window_size == old(self).window_size,
    {
        let ghost s = self.task_channel@;
        let ghost q = self.task_queue@;
        proof {
            lemma_first_interrupt(s);
        }
        let n = self.task_channel.len();
        let mut i: usize = 0;
        while self.task_channel.len() > 0
            invariant
                0 <= i <= s.len(),
                s.len() == n,
                s == old(self).task_channel@,
                q == old(self).task_queue@,
                self.task_channel@ == s.skip(i as int),
                self.task_queue@ == q + s.take(i as int),
                forall|j: int| 0 <= j < i ==> !(#[trigger] s[j]).is_interrupt(),
                0 <= first_interrupt(s) <= s.len(),
                first_interrupt(s) < s.len() ==> s[first_interrupt(s)].is_interrupt(),
                forall|j: int| 0 <= j < first_interrupt(s) ==> !(#[trigger] s[j]).is_interrupt(),
                self.current_gremlin == old(self).current_gremlin,
                self.should_exit == old(self).should_exit,
                self.should_check_for_action == old(self).should_check_for_action,
                self.window_position == old(self).window_position,
                self.window_size == old(self).window_size,
            decreases s.len() - i,
        {
            assert(i < s.len());
            let task = self.task_channel.try_recv();
            match task {
                Some(t) => {
                    assert(t == s[i as int]);
                    if t.is_interrupting() {
                        assert(first_interrupt(s) == i) by {
                            if first_interrupt(s) < i {
                                assert(!s[first_interrupt(s)].is_interrupt());
                            }
                        }
                        self.task_queue.clear();
                        assert(s.skip(i as int).drop_first() =~= s.skip(i + 1));
                        return Some(t);
                    }
                    self.task_queue.push_back(t);
                    assert(s.skip(i as int).drop_first() =~= s.skip(i + 1));
                    assert(q + s.take(i + 1) =~= (q + s.take(i as int)).push(t));
                    i = i + 1;
                },
                None => {},
            }
        }
        assert(s.take(i as int) =~= s);
        None
    }

    /// The task to act on this frame: an interrupting task from the channel, or else,
    /// when the ready gate is open, the oldest queued task.
    pub fn next_task(&mut self) -> (r: Option<GremlinTask>)
        ensures
            (r, final(self).task_queue@, final(self).task_channel@) == schedule(
                old(self).task_queue@,
                old(self).task_channel@,
                old(self).should_check_for_action,
            ),
            final(self).current_gremlin == old(self).current_gremlin,
            final(self).should_exit == old(self).should_exit,
            final(self).should_check_for_action == old(self).should_check_for_action,
            final(self).window_position == old(self).window_position,
            final(self).window_size == old(self).window_size,
    {
        let interrupt = self.drain_tasks();
        if interrupt.is_none() && self.should_check_for_action {
            return self.task_queue.pop_front();
        }
        interrupt
    }
}

} // verus!
