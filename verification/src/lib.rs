pub mod dip_scale;
pub mod focus_core;
pub mod focus_laws;
pub mod focus_members;
pub mod decimal;
pub mod decimal_laws;
pub mod ir;
pub mod handler;
pub mod handler_laws;
pub mod text;
pub mod ir_loader;
pub mod ir_lexer;
pub mod lex_laws;
pub mod experimental_ir_loader;
pub mod property_value;
pub mod box_widget;
pub mod emit;
pub mod ir_view;
pub mod ir_grammar;
pub mod ir_parser;
pub mod ir_rules;
pub mod ir_validate;
pub mod state_init;
pub mod widget_spec;
pub mod widget_laws;
pub mod placement;
pub mod hit;
pub mod focus;
pub mod ir_laws;
pub mod annotate_laws;
pub mod ir_props;
pub mod focus_spike;
pub mod abi;
