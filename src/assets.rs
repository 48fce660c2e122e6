use vstd::prelude::*;

use crate::config::UVec2;
use crate::handles::TextureHandle;

verus! {

/// The textures known by name.
pub struct Assets {
    pub textures: Vec<(String, TextureHandle)>,
}

/// The handle stored under `name`; a later entry overrides an earlier one.
pub open spec fn handle_named(entries: Seq<(String, TextureHandle)>, name: Seq<char>) -> Option<
    TextureHandle,
>
    decreases entries.len(),
{
    if entries.len() == 0 {
        None
    } else if entries.last().0@ == name {
        Some(entries.last().1)
    } else {
        handle_named(entries.drop_last(), name)
    }
}

impl Assets {
    pub open spec fn named(&self, name: Seq<char>) -> Option<TextureHandle> {
        handle_named(self.textures@, name)
    }

    pub fn new() -> (r: Assets)
        ensures
            forall|n: Seq<char>| #[trigger] r.named(n) is None,
    {
        Assets { textures: Vec::new() }
    }

    /// Stores `handle` under `name`.
    pub fn insert_handle(&mut self, name: &str, handle: TextureHandle)
        ensures
            final(self).named(name@) == Some(handle),
            forall|n: Seq<char>| n != name@ ==> #[trigger] final(self).named(n) == old(self).named(n),
    {
        let ghost before = self.textures@;
        self.textures.push((String::from_str(name), handle));
        assert(self.textures@.drop_last() == before);
    }
}

/// The handle of the texture named `id`, if one was stored.
pub fn texture_id_safe(assets: &Assets, id: &str) -> (r: Option<TextureHandle>)
    ensures
        r == assets.named(id@),
{
    let key = String::from_str(id);
    let mut i: usize = assets.textures.len();
    assert(assets.textures@.take(i as int) == assets.textures@);
    while i > 0
        invariant
            i <= assets.textures@.len(),
            key@ == id@,
            assets.named(id@) == handle_named(assets.textures@.take(i as int), id@),
        decreases i,
    {
        let ghost t = assets.textures@.take(i as int);
        assert(t.drop_last() == assets.textures@.take(i - 1));
        assert(t.last() == assets.textures@[i - 1]);
        if assets.textures[i - 1].0 == key {
            return Some(assets.textures[i - 1].1);
        }
        i = i - 1;
    }
    None
}

/// The texture that `id` names with the fallbacks of drawing: `"1px"` must be
/// stored; any other name that is missing gives the `"error"` texture, which
/// must then be stored.
pub open spec fn texture_for(assets: Assets, id: Seq<char>) -> Option<TextureHandle> {
    if assets.named(id) is Some {
        assets.named(id)
    } else if id == "1px"@ {
        None
    } else {
        assets.named("error"@)
    }
}

/// The texture that `id` names, falling back to the `"error"` texture.
pub fn texture_id(assets: &Assets, id: &str) -> (r: TextureHandle)
    requires
        texture_for(*assets, id@) is Some,
    ensures
        Some(r) == texture_for(*assets, id@),
{
    match texture_id_safe(assets, id) {
        Some(h) => h,
        None => match texture_id_safe(assets, "error") {
            Some(h) => h,
            None => {
                // `requires` rules this arm out
                assert(false);
                TextureHandle::Raw(0)
            },
        },
    }
}

/// The size of a texture's image, as far as it is known.
#[derive(Copy, Clone, Debug, PartialEq, Eq, Structural)]
pub enum ImageSizeResult {
    ImageNotFound,
    LoadingInProgress,
    Loaded(UVec2),
}

} // verus!
