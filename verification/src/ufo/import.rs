use vstd::prelude::*;
use vstd::string::StringExecFns;

verus! {

/// The module that holds the masters in memory while a Glyphs source is
/// turned into designs.
#[derive(Clone, Copy, Debug, PartialEq, Eq, Structural)]
pub enum GlyphsLibUfoModule {
    UFOLib2,
    Defcon,
}

impl Default for GlyphsLibUfoModule {
    fn default() -> (module: Self)
        ensures
            module == GlyphsLibUfoModule::UFOLib2,
    {
        GlyphsLibUfoModule::UFOLib2
    }
}

impl GlyphsLibUfoModule {
    /// The name by which the module is loaded.
    pub fn as_str(self) -> (name: &'static str)
        ensures
            name@ == match self {
                GlyphsLibUfoModule::UFOLib2 => "ufoLib2"@,
                GlyphsLibUfoModule::Defcon => "defcon"@,
            },
    {
        match self {
            GlyphsLibUfoModule::UFOLib2 => "ufoLib2",
            GlyphsLibUfoModule::Defcon => "defcon",
        }
    }
}

/// What the conversion of a Glyphs source is told.
pub struct Glyphs2UFOOptions {
    pub glyphs_file: String,
    pub output_dir: Option<String>,
    pub designspace_path: Option<String>,
    pub instance_dir: Option<String>,
    pub ufo_module: String,
    pub minimal: bool,
    pub no_preserve_glyphsapp_metadata: bool,
    pub propagate_anchors: bool,
    #[allow(non_snake_case)]
    pub generate_GDEF: bool,
    pub normalize_ufos: bool,
    pub create_background_layers: bool,
    pub no_store_editor_state: bool,
    pub write_public_skip_export_glyphs: bool,
    pub expand_includes: bool,
    pub glyph_data: Vec<String>,
    pub enable_last_change: bool,
    pub enable_automatic_alignment: bool,
}

impl Glyphs2UFOOptions {
    /// The options for `glyphs_file` as they stand when nothing is asked
    /// for: background layers are made, the editor's state is not stored,
    /// the list of glyphs not to export is written, and the last change and
    /// the automatic alignment are kept.
    pub fn new(glyphs_file: String) -> (options: Self)
        ensures
            options.glyphs_file == glyphs_file,
            options.output_dir.is_none(),
            options.designspace_path.is_none(),
            options.instance_dir.is_none(),
            options.ufo_module@ == "ufoLib2"@,
            !options.minimal,
            !options.no_preserve_glyphsapp_metadata,
            !options.propagate_anchors,
            !options.generate_GDEF,
            !options.normalize_ufos,
            options.create_background_layers,
            options.no_store_editor_state,
            options.write_public_skip_export_glyphs,
            !options.expand_includes,
            options.glyph_data@.len() == 0,
            options.enable_last_change,
            options.enable_automatic_alignment,
    {
        Glyphs2UFOOptions {
            glyphs_file,
            output_dir: None,
            designspace_path: None,
            instance_dir: None,
            ufo_module: String::from_str(GlyphsLibUfoModule::UFOLib2.as_str()),
            minimal: false,
            no_preserve_glyphsapp_metadata: false,
            propagate_anchors: false,
            generate_GDEF: false,
            normalize_ufos: false,
            create_background_layers: true,
            no_store_editor_state: true,
            write_public_skip_export_glyphs: true,
            expand_includes: false,
            glyph_data: Vec::new(),
            enable_last_change: true,
            enable_automatic_alignment: true,
        }
    }

    pub fn output_dir(self, value: Option<String>) -> (options: Self)
        ensures
            options == (Glyphs2UFOOptions { output_dir: value, ..self }),
    {
        let mut options = self;
        options.output_dir = value;
        options
    }

    pub fn designspace_path(self, value: Option<String>) -> (options: Self)
        ensures
            options == (Glyphs2UFOOptions { designspace_path: value, ..self }),
    {
        let mut options = self;
        options.designspace_path = value;
        options
    }

    pub fn instance_dir(self, value: Option<String>) -> (options: Self)
        ensures
            options == (Glyphs2UFOOptions { instance_dir: value, ..self }),
    {
        let mut options = self;
        options.instance_dir = value;
        options
    }

    pub fn minimal(self, value: bool) -> (options: Self)
        ensures
            options == (Glyphs2UFOOptions { minimal: value, ..self }),
    {
        let mut options = self;
        options.minimal = value;
        options
    }

    pub fn no_preserve_glyphsapp_metadata(self, value: bool) -> (options: Self)
        ensures
            options == (Glyphs2UFOOptions { no_preserve_glyphsapp_metadata: value, ..self }),
    {
        let mut options = self;
        options.no_preserve_glyphsapp_metadata = value;
        options
    }

    pub fn propagate_anchors(self, value: bool) -> (options: Self)
        ensures
            options == (Glyphs2UFOOptions { propagate_anchors: value, ..self }),
    {
        let mut options = self;
        options.propagate_anchors = value;
        options
    }

    #[allow(non_snake_case)]
    pub fn generate_GDEF(self, value: bool) -> (options: Self)
        ensures
            options == (Glyphs2UFOOptions { generate_GDEF: value, ..self }),
    {
        let mut options = self;
        options.generate_GDEF = value;
        options
    }

    pub fn normalize_ufos(self, value: bool) -> (options: Self)
        ensures
            options == (Glyphs2UFOOptions { normalize_ufos: value, ..self }),
    {
        let mut options = self;
        options.normalize_ufos = value;
        options
    }

    pub fn create_background_layers(self, value: bool) -> (options: Self)
        ensures
            options == (Glyphs2UFOOptions { create_background_layers: value, ..self }),
    {
        let mut options = self;
        options.create_background_layers = value;
        options
    }

    pub fn no_store_editor_state(self, value: bool) -> (options: Self)
        ensures
            options == (Glyphs2UFOOptions { no_store_editor_state: value, ..self }),
    {
        let mut options = self;
        options.no_store_editor_state = value;
        options
    }

    pub fn write_public_skip_export_glyphs(self, value: bool) -> (options: Self)
        ensures
            options == (Glyphs2UFOOptions { write_public_skip_export_glyphs: value, ..self }),
    {
        let mut options = self;
        options.write_public_skip_export_glyphs = value;
        options
    }

    pub fn expand_includes(self, value: bool) -> (options: Self)
        ensures
            options == (Glyphs2UFOOptions { expand_includes: value, ..self }),
    {
        let mut options = self;
        options.expand_includes = value;
        options
    }

    pub fn glyph_data(self, value: Vec<String>) -> (options: Self)
        ensures
            options == (Glyphs2UFOOptions { glyph_data: value, ..self }),
    {
        let mut options = self;
        options.glyph_data = value;
        options
    }

    pub fn enable_last_change(self, value: bool) -> (options: Self)
        ensures
            options == (Glyphs2UFOOptions { enable_last_change: value, ..self }),
    {
        let mut options = self;
        options.enable_last_change = value;
        options
    }

    pub fn enable_automatic_alignment(self, value: bool) -> (options: Self)
        ensures
            options == (Glyphs2UFOOptions { enable_automatic_alignment: value, ..self }),
    {
        let mut options = self;
        options.enable_automatic_alignment = value;
        options
    }

    /// Names the module that holds the masters.
    pub fn ufo_module(self, value: GlyphsLibUfoModule) -> (options: Self)
        ensures
            options.ufo_module@ == match value {
                GlyphsLibUfoModule::UFOLib2 => "ufoLib2"@,
                GlyphsLibUfoModule::Defcon => "defcon"@,
            },
            options == (Glyphs2UFOOptions { ufo_module: options.ufo_module, ..self }),
    {
        let mut options = self;
        options.ufo_module = String::from_str(value.as_str());
        options
    }
}

} // verus!
