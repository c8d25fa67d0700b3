use super::TextureLoader;
use crate::text::concat;
use vstd::prelude::*;

verus! {

/// The background behind a character's portrait: a plain color, or a texture.
pub enum PortraitBGData<T> {
    Color([u8; 3]),
    Texture(T),
}

/// The name under which a background texture is loaded: `background/{texture}`.
pub fn background_texture_name(texture: &str) -> (name: String)
    ensures
        name@ == "background/"@ + texture@,
{
    concat("background/", texture)
}

impl PortraitBGData<String> {
    /// The portrait background with its texture loaded by `loader` under its background name;
    /// a color stays as it is. The loader's failure is passed on.
    pub fn load<T, E, L: TextureLoader<T, E>>(&self, loader: &mut L) -> (r: Result<PortraitBGData<T>, E>)
        ensures
            self matches PortraitBGData::Color(c) ==> (r matches Ok(PortraitBGData::Color(c2)) && c2 == c),
    {
        match self {
            PortraitBGData::Color(color) => Ok(PortraitBGData::Color(*color)),
            PortraitBGData::Texture(texture) => {
                let name = background_texture_name(texture.as_str());
                match loader.load_texture(name) {
                    Ok(t) => Ok(PortraitBGData::Texture(t)),
                    Err(e) => Err(e),
                }
            },
        }
    }
}

/// An offset of a background layer.
#[derive(Debug, Clone, Copy, Default, PartialEq, Eq, Structural)]
pub struct Offset {
    pub x: i16,
    pub y: i16,
}

} // verus!
