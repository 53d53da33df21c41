//! The root of a configuration.

use vstd::prelude::*;
use crate::error::{ErrorKind, Fault, SchemaError};
use crate::fields::{texts, Fields, Writer};
use crate::named::{
    distinct_named, optional_named, read_optional_named, slot_named, write_optional_named, NamedMap,
};
use crate::node::{Node, NodeView};
use crate::record::{
    entries, is_record, optional, present, record_node, required, slot, slot_opt, tag_key,
    unknown_field, Entries, Slot,
};
use super::devices::{Devices, DevicesView};
use super::filters::{Filter, FilterView};
use super::mixer::{Mixer, MixerView};
use super::pipeline::{PipelineStep, PipelineStepView};
use super::processor::{Processor, ProcessorView};

verus! {

/// A whole configuration: the devices, what is defined by name, and the
/// pipeline.
///
/// The steps of the pipeline name mixers, filters and processors. Whether
/// those names are defined, and whether channels exist, is for the engine
/// that runs the configuration to check.
#[derive(Clone, Debug, PartialEq, Eq)]
pub struct Configuration {
    pub title: Option<String>,
    pub description: Option<String>,
    pub devices: Devices,
    pub mixers: Option<NamedMap<Mixer>>,
    pub filters: Option<NamedMap<Filter>>,
    pub processors: Option<NamedMap<Processor>>,
    /// The steps, in the order in which they run.
    pub pipeline: Option<Vec<PipelineStep>>,
}

/// The mathematical value of a [`Configuration`].
pub struct ConfigurationView {
    pub title: Option<Seq<char>>,
    pub description: Option<Seq<char>>,
    pub devices: DevicesView,
    pub mixers: Option<Seq<(Seq<char>, MixerView)>>,
    pub filters: Option<Seq<(Seq<char>, FilterView)>>,
    pub processors: Option<Seq<(Seq<char>, ProcessorView)>>,
    pub pipeline: Option<Seq<PipelineStepView>>,
}

impl ConfigurationView {
    /// No mixer, filter or processor has the name of another of its kind.
    /// This holds of every configuration that executable code can hold and of
    /// every one that is read.
    pub open spec fn valid(self) -> bool {
        &&& self.mixers matches Some(x) ==> distinct_named(x)
        &&& self.filters matches Some(x) ==> distinct_named(x)
        &&& self.processors matches Some(x) ==> distinct_named(x)
    }
}

impl DeepView for Configuration {
    type V = ConfigurationView;

    open spec fn deep_view(&self) -> ConfigurationView {
        ConfigurationView {
            title: self.title.deep_view(),
            description: self.description.deep_view(),
            devices: self.devices.deep_view(),
            mixers: self.mixers.deep_view(),
            filters: self.filters.deep_view(),
            processors: self.processors.deep_view(),
            pipeline: self.pipeline.deep_view(),
        }
    }
}

impl Configuration {
    /// The keys that the root of a document declares.
    pub open spec fn names() -> Seq<Seq<char>> {
        seq![
            "title"@,
            "description"@,
            "devices"@,
            "mixers"@,
            "filters"@,
            "processors"@,
            "pipeline"@,
        ]
    }

    /// The keys of the root are distinct, and none is the key of a
    /// discriminant.
    pub proof fn lemma_names()
        ensures
            Self::names().no_duplicates(),
            !Self::names().contains(tag_key()),
    {
        reveal_strlit("type");
        reveal_strlit("title");
        reveal_strlit("description");
        reveal_strlit("devices");
        reveal_strlit("mixers");
        reveal_strlit("filters");
        reveal_strlit("processors");
        reveal_strlit("pipeline");
        assert("type"@.len() == 4);
        assert("title"@.len() == 5);
        assert("description"@.len() == 11);
        assert("devices"@.len() == 7 && "devices"@[0] == 'd');
        assert("mixers"@.len() == 6);
        assert("filters"@.len() == 7 && "filters"@[0] == 'f');
        assert("processors"@.len() == 10);
        assert("pipeline"@.len() == 8);
    }

    /// What a configuration writes: one slot for each field.
    pub open spec fn slots(v: ConfigurationView) -> Seq<Slot> {
        seq![
            slot_opt::<String>("title"@, v.title),
            slot_opt::<String>("description"@, v.description),
            slot::<Devices>("devices"@, v.devices),
            slot_named::<Mixer>("mixers"@, v.mixers),
            slot_named::<Filter>("filters"@, v.filters),
            slot_named::<Processor>("processors"@, v.processors),
            slot_opt::<Vec<PipelineStep>>("pipeline"@, v.pipeline),
        ]
    }

    /// The configuration that the entries of the root stand for, or why they
    /// stand for none: the first key that the root does not declare, else the
    /// first field, in the order of the declaration, that is missing or holds
    /// no value of its kind.
    pub open spec fn decode_fields(m: Entries) -> Result<ConfigurationView, Fault> {
        let title = optional::<String>(m, "title"@);
        let description = optional::<String>(m, "description"@);
        let devices = required::<Devices>(m, "devices"@);
        let mixers = optional_named::<Mixer>(m, "mixers"@);
        let filters = optional_named::<Filter>(m, "filters"@);
        let processors = optional_named::<Processor>(m, "processors"@);
        let pipeline = optional::<Vec<PipelineStep>>(m, "pipeline"@);
        if let Some(e) = unknown_field(m, Self::names()) {
            Err(e)
        } else if title is Err {
            Err(title->Err_0)
        } else if description is Err {
            Err(description->Err_0)
        } else if devices is Err {
            Err(devices->Err_0)
        } else if mixers is Err {
            Err(mixers->Err_0)
        } else if filters is Err {
            Err(filters->Err_0)
        } else if processors is Err {
            Err(processors->Err_0)
        } else if pipeline is Err {
            Err(pipeline->Err_0)
        } else {
            Ok(
                ConfigurationView {
                    title: title->Ok_0,
                    description: description->Ok_0,
                    devices: devices->Ok_0,
                    mixers: mixers->Ok_0,
                    filters: filters->Ok_0,
                    processors: processors->Ok_0,
                    pipeline: pipeline->Ok_0,
                },
            )
        }
    }

    /// The configuration that a document stands for, or why it stands for
    /// none.
    pub open spec fn decode(n: NodeView) -> Result<ConfigurationView, Fault> {
        if is_record(n) {
            Self::decode_fields(entries(n))
        } else {
            Err(Fault::here(ErrorKind::TypeMismatch))
        }
    }

    /// The document written for a configuration.
    pub open spec fn encode(v: ConfigurationView) -> NodeView {
        record_node(present(Self::slots(v)))
    }

    /// Reads a configuration from the entries of the root of a document.
    pub fn read_fields(f: &Fields) -> (r: Result<Configuration, SchemaError>)
        ensures
            r matches Ok(x) ==> Self::decode_fields(f@) == Ok::<ConfigurationView, Fault>(x.deep_view()),
            r matches Err(e) ==> Self::decode_fields(f@) == Err::<ConfigurationView, Fault>(e.deep_view()),
    {
        let known = vec![
            "title",
            "description",
            "devices",
            "mixers",
            "filters",
            "processors",
            "pipeline",
        ];
        proof {
            assert(texts(known@) =~= Self::names());
        }
        f.deny_unknown(&known)?;
        let title = f.optional::<String>("title")?;
        let description = f.optional::<String>("description")?;
        let devices = f.required::<Devices>("devices")?;
        let mixers = read_optional_named::<Mixer>(f, "mixers")?;
        let filters = read_optional_named::<Filter>(f, "filters")?;
        let processors = read_optional_named::<Processor>(f, "processors")?;
        let pipeline = f.optional::<Vec<PipelineStep>>("pipeline")?;
        Ok(Configuration { title, description, devices, mixers, filters, processors, pipeline })
    }

    /// Reads a configuration from a document.
    pub fn from_node(n: &Node) -> (r: Result<Configuration, SchemaError>)
        ensures
            r matches Ok(x) ==> Self::decode(n@) == Ok::<ConfigurationView, Fault>(x.deep_view()),
            r matches Err(e) ==> Self::decode(n@) == Err::<ConfigurationView, Fault>(e.deep_view()),
    {
        let f = Fields::of(n)?;
        Self::read_fields(&f)
    }

    /// Writes a configuration as a document. A field that is absent is left
    /// out of the document.
    pub fn to_node(&self) -> (n: Node)
        ensures
            n@ == Self::encode(self.deep_view()),
    {
        let w = Writer::new();
        let w = w.put_opt::<String>("title", &self.title);
        let w = w.put_opt::<String>("description", &self.description);
        let w = w.put::<Devices>("devices", &self.devices);
        let w = write_optional_named::<Mixer>(w, "mixers", &self.mixers);
        let w = write_optional_named::<Filter>(w, "filters", &self.filters);
        let w = write_optional_named::<Processor>(w, "processors", &self.processors);
        let w = w.put_opt::<Vec<PipelineStep>>("pipeline", &self.pipeline);
        proof {
            assert(w.slots() =~= Self::slots(self.deep_view()));
        }
        w.finish()
    }

    /// States that the configuration is valid; does nothing when run.
    pub fn witness_valid(&self)
        ensures
            self.deep_view().valid(),
    {
        match &self.mixers {
            Some(x) => x.witness_distinct(),
            None => {},
        }
        match &self.filters {
            Some(x) => x.witness_distinct(),
            None => {},
        }
        match &self.processors {
            Some(x) => x.witness_distinct(),
            None => {},
        }
    }
}

} // verus!
