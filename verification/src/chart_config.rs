//! The settings of the charts, with the value that each has where a
//! settings file does not give it.

use vstd::prelude::*;

verus! {

/// The sizes of the fonts.
#[derive(Debug, Clone, PartialEq)]
pub struct FontConfig {
    /// The title.
    pub title_size: u32,
    /// The header of the table.
    pub table_header_size: u32,
    /// The values of the table.
    pub table_value_size: u32,
    /// The labels of the axes.
    pub axis_label_size: u32,
    /// The legend.
    pub legend_size: u32,
    /// The caption of the box plot.
    pub box_plot_caption_size: u32,
}

/// The colours, each as red, green and blue.
#[derive(Debug, Clone, PartialEq)]
pub struct ColorConfig {
    /// The primary orange.
    pub orange_primary: [u8; 3],
    /// The orange of headers.
    pub orange_header: [u8; 3],
    /// The light grey of backgrounds.
    pub light_gray_bg: [u8; 3],
    /// The colour of grid lines.
    pub grid_color: [u8; 3],
}

/// The measures of the layout, in pixels.
#[derive(Debug, Clone, PartialEq)]
pub struct LayoutConfig {
    /// The width of a chart.
    pub chart_width: u32,
    /// The height of a chart.
    pub chart_height: u32,
    /// The height of the title.
    pub title_height: u32,
    /// The height of the table.
    pub table_height: u32,
    /// The height of the table's header row.
    pub table_header_height: i32,
    /// The width of the box plot.
    pub box_plot_width: u32,
}

/// All the settings of the charts.
#[derive(Debug, Clone, PartialEq)]
pub struct ChartConfig {
    pub font: FontConfig,
    pub colors: ColorConfig,
    pub layout: LayoutConfig,
}

impl FontConfig {
    /// Whether the sizes are those used where nothing else is given.
    pub open spec fn is_default(&self) -> bool {
        &&& self.title_size == 32
        &&& self.table_header_size == 32
        &&& self.table_value_size == 32
        &&& self.axis_label_size == 14
        &&& self.legend_size == 14
        &&& self.box_plot_caption_size == 16
    }
}

impl Default for FontConfig {
    fn default() -> (config: FontConfig)
        ensures
            config.is_default(),
    {
        FontConfig {
            title_size: 32,
            table_header_size: 32,
            table_value_size: 32,
            axis_label_size: 14,
            legend_size: 14,
            box_plot_caption_size: 16,
        }
    }
}

impl ColorConfig {
    /// Whether the colours are those used where nothing else is given.
    pub open spec fn is_default(&self) -> bool {
        &&& self.orange_primary@ == seq![243u8, 156u8, 18u8]
        &&& self.orange_header@ == seq![230u8, 126u8, 34u8]
        &&& self.light_gray_bg@ == seq![245u8, 245u8, 245u8]
        &&& self.grid_color@ == seq![220u8, 220u8, 220u8]
    }
}

impl Default for ColorConfig {
    fn default() -> (config: ColorConfig)
        ensures
            config.is_default(),
    {
        let orange_primary: [u8; 3] = [243, 156, 18];
        let orange_header: [u8; 3] = [230, 126, 34];
        let light_gray_bg: [u8; 3] = [245, 245, 245];
        let grid_color: [u8; 3] = [220, 220, 220];
        assert(orange_primary@ =~= seq![243u8, 156u8, 18u8]);
        assert(orange_header@ =~= seq![230u8, 126u8, 34u8]);
        assert(light_gray_bg@ =~= seq![245u8, 245u8, 245u8]);
        assert(grid_color@ =~= seq![220u8, 220u8, 220u8]);
        ColorConfig { orange_primary, orange_header, light_gray_bg, grid_color }
    }
}

impl LayoutConfig {
    /// Whether the measures are those used where nothing else is given.
    pub open spec fn is_default(&self) -> bool {
        &&& self.chart_width == 900
        &&& self.chart_height == 700
        &&& self.title_height == 50
        &&& self.table_height == 90
        &&& self.table_header_height == 40
        &&& self.box_plot_width == 300
    }
}

impl Default for LayoutConfig {
    fn default() -> (config: LayoutConfig)
        ensures
            config.is_default(),
    {
        LayoutConfig {
            chart_width: 900,
            chart_height: 700,
            title_height: 50,
            table_height: 90,
            table_header_height: 40,
            box_plot_width: 300,
        }
    }
}

impl Default for ChartConfig {
    fn default() -> (config: ChartConfig)
        ensures
            config.font.is_default(),
            config.colors.is_default(),
            config.layout.is_default(),
    {
        ChartConfig {
            font: FontConfig::default(),
            colors: ColorConfig::default(),
            layout: LayoutConfig::default(),
        }
    }
}

} // verus!
