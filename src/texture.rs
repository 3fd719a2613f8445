//! Turning decoded images into renderer textures held by the slideshow's
//! cache. Textures are tied to the UI context, so this runs where the
//! context lives.
use crate::slideshow::Slideshow;
use vstd::prelude::*;

verus! {

#[verifier::external_type_specification]
#[verifier::external_body]
pub struct ExContext(egui::Context);

#[verifier::external_type_specification]
#[verifier::external_body]
pub struct ExColorImage(egui::ColorImage);

#[verifier::external_type_specification]
#[verifier::external_body]
pub struct ExTextureHandle(egui::TextureHandle);

/// Relies on egui::Context::load_texture: allocates a texture for `image` in
/// the context's texture manager and returns its handle. Which handle comes
/// back depends on the context's state, so nothing is stated of it.
#[verifier::external_body]
fn load_texture(ctx: &egui::Context, image: egui::ColorImage) -> egui::TextureHandle {
    ctx.load_texture("name", image, egui::TextureOptions::default())
}

impl Slideshow<egui::TextureHandle> {
    /// Uploads the decoded image of `path` as a texture and caches its
    /// handle under `path`. Nothing else changes.
    pub fn preload_image(&mut self, ctx: &egui::Context, path: String, img: egui::ColorImage)
        requires
            old(self).wf(),
        ensures
            final(self).wf(),
            exists|h: egui::TextureHandle|
                final(self).spec_cache() == old(self).spec_cache().insert(path@, h),
            final(self).spec_index() == old(self).spec_index(),
            final(self).spec_dir() == old(self).spec_dir(),
            final(self).spec_files() == old(self).spec_files(),
            final(self).spec_playing() == old(self).spec_playing(),
            final(self).spec_last_advance() == old(self).spec_last_advance(),
    {
        let handle = load_texture(ctx, img);
        self.store_image(path, handle);
    }
}

} // verus!
