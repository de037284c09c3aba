//! The session-scoped texture cache: one drawable handle per tower
//! tag, populated during an explicit warm-up phase and never evicted.
//!
//! The handle type comes from the rendering crate and is opaque here;
//! the cache only stores and hands out handles.

use vstd::prelude::*;

use crate::tower::Tower;

verus! {

/// Drawable handle of the rendering crate, declared so it can be
/// carried through verified code. Opaque: nothing is known of a value.
#[verifier::external_type_specification]
#[verifier::external_body]
pub struct ExTexture2D(macroquad::texture::Texture2D);

/// Relies on macroquad's derived Texture2D::clone: another handle to
/// the same texture. The handle is opaque, so nothing is stated.
#[verifier::external_body]
pub fn clone_texture(t: &macroquad::texture::Texture2D) -> macroquad::texture::Texture2D {
    t.clone()
}

/// One optional drawable handle per tower tag, in enumeration order.
pub struct TextureCache {
    entries: Vec<Option<macroquad::texture::Texture2D>>,
}

impl TextureCache {
    pub closed spec fn wf(self) -> bool {
        self.entries@.len() == 5
    }

    /// Whether the cache holds a texture for `t`.
    pub closed spec fn is_warm(self, t: Tower) -> bool {
        self.entries@[t.index_spec()] is Some
    }

    /// A cold cache: no tag is warm.
    pub fn new() -> (r: TextureCache)
        ensures
            r.wf(),
            forall|t: Tower| !r.is_warm(t),
    {
        let mut entries: Vec<Option<macroquad::texture::Texture2D>> = Vec::new();
        entries.push(None);
        entries.push(None);
        entries.push(None);
        entries.push(None);
        entries.push(None);
        TextureCache { entries }
    }

    /// Store the texture for `t`. Populates, never evicts: every tag
    /// that was warm before stays warm.
    pub fn warm(&mut self, t: Tower, tex: macroquad::texture::Texture2D)
        requires
            old(self).wf(),
        ensures
            final(self).wf(),
            final(self).is_warm(t),
            forall|t2: Tower| old(self).is_warm(t2) ==> final(self).is_warm(t2),
    {
        let i = t.index();
        self.entries.set(i, Some(tex));
        proof {
            assert(forall|t2: Tower| old(self).is_warm(t2) ==> final(self).is_warm(t2));
        }
    }

    /// The cached texture for `t`, present exactly when `t` is warm.
    pub fn get(&self, t: Tower) -> (r: Option<&macroquad::texture::Texture2D>)
        requires
            self.wf(),
        ensures
            r is Some <==> self.is_warm(t),
    {
        let i = t.index();
        match &self.entries[i] {
            Some(tex) => Some(tex),
            None => None,
        }
    }
}

/// Every tag has its texture cached: what the warm-up phase
/// establishes before the first frame.
pub open spec fn all_warm(c: TextureCache) -> bool {
    forall|t: Tower| c.is_warm(t)
}

impl Tower {
    /// The cached texture for this tag, cloned out of the cache;
    /// present exactly when the cache was warmed for this tag.
    pub fn try_loaded_texture(self, cache: &TextureCache) -> (r: Option<
        macroquad::texture::Texture2D,
    >)
        requires
            cache.wf(),
        ensures
            r is Some <==> cache.is_warm(self),
    {
        match cache.get(self) {
            Some(tex) => Some(clone_texture(tex)),
            None => None,
        }
    }
}

impl crate::tower::Machine {
    /// The cached texture for this machine's tag. Requesting it before
    /// the cache was warmed is a contract violation, made impossible
    /// here by the precondition.
    pub fn texture(&self, cache: &TextureCache) -> (r: macroquad::texture::Texture2D)
        requires
            cache.wf(),
            cache.is_warm(self.tower),
    {
        let t = self.ty();
        let entry = cache.get(t);
        proof {
            assert(entry is Some);
        }
        clone_texture(entry.unwrap())
    }
}

} // verus!
