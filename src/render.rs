use vstd::prelude::*;

use crate::gremlin::{
    AnimationProperties, Animator, DesktopGremlin, FrameRect, Gremlin, GremlinTask, ceil_div,
    is_last_named, DEFAULT_COLUMN_COUNT, OUTRO_ANIMATION, RESIZE_THRESHOLD,
};
use crate::utils::{
    cached, has_name, is_latest_with_name, rearranged, TextureCache, TextureId,
};
use image::DynamicImage;

verus! {

#[verifier::external_type_specification]
#[verifier::external_body]
pub struct ExDynamicImage(image::DynamicImage);

/// Relies on `image::DynamicImage::width`: the width of the image in pixels.
#[verifier::external_body]
fn image_width(image: &DynamicImage) -> u32 {
    image.width()
}

/// Relies on `image::DynamicImage::height`: the height of the image in pixels.
#[verifier::external_body]
fn image_height(image: &DynamicImage) -> u32 {
    image.height()
}

/// Relies on `image::DynamicImage::resize` with the triangle filter: a new image
/// scaled to fit the bounds, keeping its aspect ratio.
#[verifier::external_body]
fn resize_image(image: &DynamicImage, width: u32, height: u32) -> DynamicImage {
    image.resize(width, height, image::imageops::FilterType::Triangle)
}

/// The size of the sheet scaled so that each cell is one window: one row of
/// columns per started row of frames. `None` when it would not fit in `u32`.
pub open spec fn spec_resize_target(sprite_count: u32, window_size: (u32, u32)) -> Option<(u32, u32)> {
    let w = DEFAULT_COLUMN_COUNT * window_size.0;
    let h = ceil_div(sprite_count as int, DEFAULT_COLUMN_COUNT as int) * window_size.1;
    if w <= u32::MAX && h <= u32::MAX {
        Some((w as u32, h as u32))
    } else {
        None
    }
}

/// Scales a sheet to the window's sprite grid; `None` when that grid is too large.
pub fn resize_image_to_window(
    image: &DynamicImage,
    window_size: (u32, u32),
    animation_properties: &AnimationProperties,
) -> (r: Option<DynamicImage>)
    requires
        animation_properties.sprite_count > 0,
    ensures
        r.is_some() == spec_resize_target(animation_properties.sprite_count, window_size).is_some(),
{
    match Animator::fitted_to_cell(animation_properties.duplicate(), window_size.0, window_size.1) {
        Some(a) => Some(resize_image(image, a.texture_size.0, a.texture_size.1)),
        None => None,
    }
}

/// Builds the playback cursor of a freshly decoded sheet. A sheet of more than
/// `RESIZE_THRESHOLD` frames is scaled down so that each cell is one window;
/// a smaller one is used at its own size. The sheet to upload comes back with it.
pub fn load_sheet(props: AnimationProperties, image: DynamicImage, window_size: (u32, u32)) -> (r:
    Result<(Animator, DynamicImage), crate::gremlin::SpriteError>)
    requires
        props.sprite_count > 0,
    ensures
        props.sprite_count > RESIZE_THRESHOLD ==> match r {
            Ok((a, _)) => a == Animator::spec_fitted(props, window_size.0, window_size.1)
                && spec_resize_target(props.sprite_count, window_size) == Some(a.texture_size),
            Err(e) => e == crate::gremlin::SpriteError::TextureWriteError && spec_resize_target(
                props.sprite_count,
                window_size,
            ).is_none(),
        },
        props.sprite_count <= RESIZE_THRESHOLD ==> match r {
            Ok((a, sheet)) => a == Animator::spec_native(props, a.texture_size.0, a.texture_size.1)
                && sheet == image,
            Err(_) => false,
        },
        r is Ok ==> r->Ok_0.0.wf(),
{
    if props.sprite_count > RESIZE_THRESHOLD {
        let fitted = Animator::fitted_to_cell(props, window_size.0, window_size.1);
        match fitted {
            Some(a) => {
                let resized = resize_image(&image, a.texture_size.0, a.texture_size.1);
                Ok((a, resized))
            },
            None => Err(crate::gremlin::SpriteError::TextureWriteError),
        }
    } else {
        let w = image_width(&image);
        let h = image_height(&image);
        Ok((Animator::from_dimensions(props, w, h), image))
    }
}

/// What resolving a task asks of the caller.
#[derive(Debug)]
pub enum Resolution {
    /// Nothing changes this frame.
    Unchanged,
    /// The active animation starts over from its first frame.
    Restarted,
    /// The animation was taken from the cache.
    FromCache,
    /// The animation must be decoded; hand the result to `finish_decode`.
    Decode(AnimationProperties),
}

/// The renderer's state: the name of the active animation, the cache of decoded
/// animations and the texture on screen.
pub struct GremlinRender {
    pub current_animation_name: String,
    pub texture_cache: TextureCache,
    pub gremlin_texture: Option<TextureId>,
}

/// The character with another playback cursor.
pub open spec fn with_animator(g: Gremlin, a: Option<Animator>) -> Gremlin {
    Gremlin { animator: a, ..g }
}

/// The animation named `name`, if it has frames.
pub open spec fn playable(g: Gremlin, name: Seq<char>, i: int) -> bool {
    is_last_named(g.animation_map@, name, i) && g.animation_map@[i].sprite_count > 0
}

/// The cursor after one frame: the next frame, back to the first after the last.
pub open spec fn advanced(a: Animator) -> Animator {
    Animator {
        current_frame: ((a.current_frame + 1) % (a.animation_properties.sprite_count as int)) as u32,
        ..a
    }
}

/// What resolving `task` does, apart from the queue and the channel, which it leaves alone.
pub open spec fn resolve_post(
    s0: GremlinRender,
    a0: DesktopGremlin,
    task: GremlinTask,
    r: Resolution,
    s1: GremlinRender,
    a1: DesktopGremlin,
) -> bool {
    let name = task.name();
    &&& a1.should_exit == a0.should_exit
    &&& a1.window_position == a0.window_position
    &&& a1.window_size == a0.window_size
    &&& match a0.current_gremlin {
        None => {
            &&& r is Unchanged
            &&& s1 == s0
            &&& a1.current_gremlin == a0.current_gremlin
            &&& a1.should_check_for_action == a0.should_check_for_action
        },
        Some(g) => if g.animator.is_some() && name == s0.current_animation_name@ {
            &&& r is Restarted
            &&& s1 == s0
            &&& a1.current_gremlin == Some(
                with_animator(g, Some(Animator { current_frame: 0, ..g.animator.unwrap() })),
            )
            &&& !a1.should_check_for_action
        } else if !(exists|i: int| playable(g, name, i)) {
            &&& r is Unchanged
            &&& s1 == s0
            &&& a1.current_gremlin == a0.current_gremlin
            &&& a1.should_check_for_action == a0.should_check_for_action
        } else if has_name(s0.texture_cache.data@, name) {
            let c = s0.texture_cache.data@;
            let j = choose|j: int| is_latest_with_name(c, name, j);
            &&& r is FromCache
            &&& s1.texture_cache.data@ == rearranged(c, j)
            &&& s1.gremlin_texture == Some(c[j].1.1)
            &&& s1.current_animation_name@ == name
            &&& a1.current_gremlin == Some(with_animator(g, Some(c[j].1.0)))
            &&& !a1.should_check_for_action
        } else {
            let i = choose|i: int| playable(g, name, i);
            &&& r == Resolution::Decode(g.animation_map@[i])
            &&& s1 == s0
            &&& a1.current_gremlin == a0.current_gremlin
            &&& a1.should_check_for_action == a0.should_check_for_action
        },
    }
}

impl GremlinRender {
    pub open spec fn wf(&self) -> bool {
        self.texture_cache.wf()
    }

    pub fn new() -> (r: GremlinRender)
        ensures
            r.current_animation_name@.len() == 0,
            r.texture_cache.data@.len() == 0,
            r.gremlin_texture.is_none(),
            r.wf(),
    {
        GremlinRender {
            current_animation_name: String::new(),
            texture_cache: TextureCache::new(),
            gremlin_texture: None,
        }
    }

    /// Whether the texture `id` is still held, by the cache or on screen; a texture
    /// that is not can be released.
    pub fn holds_texture(&self, id: TextureId) -> (r: bool)
        ensures
            r == (self.gremlin_texture == Some(id) || exists|i: int|
                0 <= i < self.texture_cache.data@.len() && (#[trigger] self.texture_cache.data@[i]).1.1 == id),
    {
        if self.gremlin_texture == Some(id) {
            return true;
        }
        let mut i: usize = 0;
        while i < self.texture_cache.data.len()
            invariant
                i <= self.texture_cache.data@.len(),
                forall|j: int| 0 <= j < i ==> (#[trigger] self.texture_cache.data@[j]).1.1 != id,
            decreases self.texture_cache.data@.len() - i,
        {
            if self.texture_cache.data[i].1.1 == id {
                return true;
            }
            i = i + 1;
        }
        false
    }

    /// Acts on a task: restarts the active animation when the task names it, else
    /// takes the animation from the cache, else asks for it to be decoded. A task
    /// for an animation the character lacks, or one without frames, changes nothing.
    pub fn resolve(&mut self, app: &mut DesktopGremlin, task: GremlinTask) -> (r: Resolution)
        requires
            old(self).wf(),
            old(app).wf(),
        ensures
            final(self).wf(),
            final(app).wf(),
            final(app).task_queue@ == old(app).task_queue@,
            final(app).task_channel@ == old(app).task_channel@,
            resolve_post(*old(self), *old(app), task, r, *final(self), *final(app)),
    {
        let ghost name = task.name();
        let animation_name = task.animation_name();
        let gremlin = match &mut app.current_gremlin {
            Some(g) => g,
            None => {
                return Resolution::Unchanged;
            },
        };
        let ghost g0 = *gremlin;
        if gremlin.animator.is_some() && animation_name == self.current_animation_name {
            if let Some(animator) = &mut gremlin.animator {
                animator.current_frame = 0;
            }
            app.should_check_for_action = false;
            return Resolution::Restarted;
        }
        let found = gremlin.find_animation(&animation_name);
        let index = match found {
            Some(i) => i,
            None => {
                assert(!(exists|i: int| playable(g0, name, i)));
                return Resolution::Unchanged;
            },
        };
        if gremlin.animation_map[index].sprite_count == 0 {
            assert(!(exists|i: int| playable(g0, name, i))) by {
                assert forall|i: int| !playable(g0, name, i) by {
                    if is_last_named(g0.animation_map@, name, i) && i != index {
                        if i > index {
                            assert(g0.animation_map@[i].animation_name@ != name);
                        } else {
                            assert(g0.animation_map@[index as int].animation_name@ != name);
                        }
                    }
                }
            }
            return Resolution::Unchanged;
        }
        assert(playable(g0, name, index as int));
        assert forall|i: int| playable(g0, name, i) implies i == index by {
            if i > index {
                assert(g0.animation_map@[i].animation_name@ != name);
            } else if i < index {
                assert(g0.animation_map@[index as int].animation_name@ != name);
            }
        }
        match self.texture_cache.lookup(&animation_name) {
            Some(j) => {
                let ghost c = self.texture_cache.data@;
                assert forall|k: int| is_latest_with_name(c, name, k) implies k == j by {
                    if k < j {
                        assert(c[j as int].0@ == name);
                    } else if k > j {
                        assert(c[k].0@ == name);
                    }
                }
                assert(c[j as int].1.0.wf());
                self.texture_cache.rearrange(j);
                let last = self.texture_cache.data.len() - 1;
                let animator = self.texture_cache.data[last].1.0.duplicate();
                let texture = self.texture_cache.data[last].1.1;
                gremlin.animator = Some(animator);
                self.gremlin_texture = Some(texture);
                self.current_animation_name = animation_name;
                app.should_check_for_action = false;
                Resolution::FromCache
            },
            None => {
                Resolution::Decode(gremlin.animation_map[index].duplicate())
            },
        }
    }

    /// Acts on this frame's task, if the scheduler picks one.
    pub fn begin_frame(&mut self, app: &mut DesktopGremlin) -> (r: Resolution)
        requires
            old(self).wf(),
            old(app).wf(),
        ensures
            final(self).wf(),
            final(app).wf(),
            ({
                let (t, q, c) = crate::gremlin::schedule(
                    old(app).task_queue@,
                    old(app).task_channel@,
                    old(app).should_check_for_action,
                );
                &&& final(app).task_queue@ == q
                &&& final(app).task_channel@ == c
                &&& match t {
                    Some(task) => resolve_post(*old(self), *old(app), task, r, *final(self), *final(app)),
                    None => {
                        &&& r is Unchanged
                        &&& *final(self) == *old(self)
                        &&& final(app).current_gremlin == old(app).current_gremlin
                        &&& final(app).should_check_for_action == old(app).should_check_for_action
                        &&& final(app).should_exit == old(app).should_exit
                        &&& final(app).window_position == old(app).window_position
                        &&& final(app).window_size == old(app).window_size
                    },
                }
            }),
    {
        match app.next_task() {
            Some(task) => self.resolve(app, task),
            None => Resolution::Unchanged,
        }
    }

    /// Makes a freshly decoded animation the active one and caches it. Returns the
    /// texture that is no longer held: the one the cache evicted, or `texture`
    /// itself when no character is loaded.
    pub fn finish_decode(&mut self, app: &mut DesktopGremlin, animator: Animator, texture: TextureId) -> (r:
        Option<TextureId>)
        requires
            old(self).wf(),
            old(app).wf(),
            animator.wf(),
        ensures
            final(self).wf(),
            final(app).wf(),
            final(app).task_queue@ == old(app).task_queue@,
            final(app).task_channel@ == old(app).task_channel@,
            final(app).should_exit == old(app).should_exit,
            final(app).window_position == old(app).window_position,
            final(app).window_size == old(app).window_size,
            match old(app).current_gremlin {
                None => {
                    &&& r == Some(texture)
                    &&& *final(self) == *old(self)
                    &&& final(app).current_gremlin == old(app).current_gremlin
                    &&& final(app).should_check_for_action == old(app).should_check_for_action
                },
                Some(g) => {
                    let c = old(self).texture_cache.data@;
                    &&& final(app).current_gremlin == Some(with_animator(g, Some(animator)))
                    &&& final(self).gremlin_texture == Some(texture)
                    &&& final(self).current_animation_name@ == animator.name()
                    &&& final(self).texture_cache.data@ == cached(c, (final(self).current_animation_name, (animator, texture)))
                    &&& !final(app).should_check_for_action
                    &&& r == (if c.len() >= crate::utils::CACHE_CAPACITY {
                        Some(c[0].1.1)
                    } else {
                        None
                    })
                },
            },
    {
        let gremlin = match &mut app.current_gremlin {
            Some(g) => g,
            None => {
                return Some(texture);
            },
        };
        let name = animator.animation_properties.animation_name.clone();
        let entry = (animator.duplicate(), texture);
        gremlin.animator = Some(animator);
        self.gremlin_texture = Some(texture);
        let evicted = self.texture_cache.cache(name, entry);
        self.current_animation_name = gremlin.animator.as_ref().unwrap().animation_properties.animation_name.clone();
        app.should_check_for_action = false;
        match evicted {
            Some(e) => Some(e.1.1),
            None => None,
        }
    }

    /// Shows the current frame and steps to the next. Returns the texture and the
    /// cell to draw. When the frame shown is the last one, the ready gate opens, and
    /// if the animation is the exit animation the exit flag is raised.
    pub fn present_frame(&self, app: &mut DesktopGremlin) -> (r: Option<(TextureId, FrameRect)>)
        requires
            self.wf(),
            old(app).wf(),
        ensures
            final(app).wf(),
            final(app).task_queue@ == old(app).task_queue@,
            final(app).task_channel@ == old(app).task_channel@,
            final(app).window_position == old(app).window_position,
            final(app).window_size == old(app).window_size,
            ({
                let shows = old(app).current_gremlin.is_some() && self.gremlin_texture.is_some()
                    && old(app).current_gremlin.unwrap().animator.is_some();
                if shows {
                    let g = old(app).current_gremlin.unwrap();
                    let a = g.animator.unwrap();
                    let last = a.current_frame + 1 == a.animation_properties.sprite_count;
                    &&& r == Some((self.gremlin_texture.unwrap(), a.spec_frame_rect()))
                    &&& final(app).current_gremlin == Some(with_animator(g, Some(advanced(a))))
                    &&& final(app).should_check_for_action == (old(app).should_check_for_action || last)
                    &&& final(app).should_exit == (old(app).should_exit || (last
                        && self.current_animation_name@ == OUTRO_ANIMATION@))
                } else {
                    &&& r.is_none()
                    &&& final(app).current_gremlin == old(app).current_gremlin
                    &&& final(app).should_check_for_action == old(app).should_check_for_action
                    &&& final(app).should_exit == old(app).should_exit
                }
            }),
    {
        let texture = match self.gremlin_texture {
            Some(t) => t,
            None => {
                return None;
            },
        };
        let gremlin = match &mut app.current_gremlin {
            Some(g) => g,
            None => {
                return None;
            },
        };
        let animator = match &mut gremlin.animator {
            Some(a) => a,
            None => {
                return None;
            },
        };
        let rect = animator.get_frame_rect();
        let count = animator.animation_properties.sprite_count;
        if animator.current_frame + 1 == count {
            app.should_check_for_action = true;
            let outro = OUTRO_ANIMATION.to_owned();
            if self.current_animation_name == outro {
                app.should_exit = true;
            }
        }
        animator.current_frame = (animator.current_frame + 1) % count;
        Some((texture, rect))
    }
}

/// Asking for the animation that is already showing restarts it at frame 0 and
/// touches neither the cache nor the texture on screen.
pub proof fn lemma_same_animation_restarts(
    s0: GremlinRender,
    a0: DesktopGremlin,
    task: GremlinTask,
    r: Resolution,
    s1: GremlinRender,
    a1: DesktopGremlin,
)
    requires
        resolve_post(s0, a0, task, r, s1, a1),
        a0.current_gremlin.is_some(),
        a0.current_gremlin.unwrap().animator.is_some(),
        task.name() == s0.current_animation_name@,
    ensures
        r is Restarted,
        s1.texture_cache.data@ == s0.texture_cache.data@,
        s1.gremlin_texture == s0.gremlin_texture,
        a1.current_gremlin.unwrap().animator.unwrap().current_frame == 0,
        a1.current_gremlin.unwrap().animator.unwrap().animation_properties
            == a0.current_gremlin.unwrap().animator.unwrap().animation_properties,
{
}

} // verus!
