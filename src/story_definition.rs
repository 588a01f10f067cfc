//! The closed vocabularies of the adventure: items, places, characters and
//! points of interest.
use crate::story_builder::{
    ActionModel, BeatModel, DialogAction, EffectModel, Story, StoryBeatDescription, StoryEffect,
    StoryHeap, StoryModel, SubStoryTransition, TransitionModel, Triger, TriggerModel,
};
use vstd::prelude::*;

verus! {

#[derive(Clone, Copy, Debug, PartialEq, Eq, Structural)]
pub enum Item {
    Tinte,
    Espada,
    Zumito,
    Naranja,
    Paquete,
    Dinero(usize),
}

#[derive(Clone, Copy, Debug, PartialEq, Eq, Structural)]
pub enum Place {
    Tienda,
    Huerto,
    Forja,
    Guarida,
    GranjaObejas,
    TiendaRopa,
    LocationOfChest(Item),
    Casa,
    EscuelaEspadachin,
    OficinaDeCorreos,
}

#[derive(Clone, Copy, Debug, PartialEq, Eq, Structural)]
pub enum NPC {
    Padre,
    Agricultor,
    VendedorRopa,
    Vendedor,
    CuidadorObejas,
    Herrero,
    MaestroEspadachin,
    Cartero,
    Malo,
    MiniBoss,
}

#[derive(Clone, Copy, Debug, PartialEq, Eq, Structural)]
pub enum InterestPoint {
    Batidora,
    OrangeTree,
}

/// The display name of a character.
pub open spec fn npc_name(n: NPC) -> Seq<char> {
    match n {
        NPC::Padre => "Padre"@,
        NPC::VendedorRopa => "Vendedor de ropa"@,
        NPC::CuidadorObejas => "Cuidador de obejas"@,
        NPC::Herrero => "Herrero"@,
        NPC::MaestroEspadachin => "Maestro Espadachin"@,
        NPC::Cartero => "Cartero"@,
        NPC::Malo => "Malo"@,
        NPC::MiniBoss => "Mini boss"@,
        NPC::Vendedor => "Vendedor"@,
        NPC::Agricultor => "Agricultor"@,
    }
}

/// The place where a character can be found.
pub open spec fn npc_location(n: NPC) -> Place {
    match n {
        NPC::Padre => Place::Casa,
        NPC::VendedorRopa => Place::TiendaRopa,
        NPC::CuidadorObejas => Place::GranjaObejas,
        NPC::Herrero => Place::Forja,
        NPC::MaestroEspadachin => Place::EscuelaEspadachin,
        NPC::Cartero => Place::OficinaDeCorreos,
        NPC::Malo => Place::Guarida,
        NPC::MiniBoss => Place::EscuelaEspadachin,
        NPC::Vendedor => Place::Tienda,
        NPC::Agricultor => Place::Huerto,
    }
}

impl NPC {
    pub fn name(&self) -> (r: &'static str)
        ensures
            r@ == npc_name(*self),
    {
        match self {
            NPC::Padre => "Padre",
            NPC::VendedorRopa => "Vendedor de ropa",
            NPC::CuidadorObejas => "Cuidador de obejas",
            NPC::Herrero => "Herrero",
            NPC::MaestroEspadachin => "Maestro Espadachin",
            NPC::Cartero => "Cartero",
            NPC::Malo => "Malo",
            NPC::MiniBoss => "Mini boss",
            NPC::Vendedor => "Vendedor",
            NPC::Agricultor => "Agricultor",
        }
    }

    pub fn location(&self) -> (r: Place)
        ensures
            r == npc_location(*self),
    {
        match self {
            NPC::Padre => Place::Casa,
            NPC::VendedorRopa => Place::TiendaRopa,
            NPC::CuidadorObejas => Place::GranjaObejas,
            NPC::Herrero => Place::Forja,
            NPC::MaestroEspadachin => Place::EscuelaEspadachin,
            NPC::Cartero => Place::OficinaDeCorreos,
            NPC::Malo => Place::Guarida,
            NPC::MiniBoss => Place::EscuelaEspadachin,
            NPC::Vendedor => Place::Tienda,
            NPC::Agricultor => Place::Huerto,
        }
    }
}

/// A beat without a sub story.
pub open spec fn plain_beat_model(trigger: TriggerModel, effect: EffectModel) -> BeatModel {
    BeatModel { sub_story: None, trigger, effect }
}

/// A sub story request for `effect`, closed by `comment`.
pub open spec fn transition_model(effect: EffectModel, comment: Seq<char>) -> TransitionModel {
    TransitionModel { effect, comment }
}

/// A character's line.
pub open spec fn talk(n: NPC, text: Seq<char>) -> ActionModel {
    ActionModel::Hablar(n, text)
}

/// The postman's request to deliver a parcel to `recipient`.
pub open spec fn postal_request(recipient: NPC) -> Seq<char> {
    "Hola, si quieres esa info me vas a tener que ayudar en las entregas de hoy. Este paquete debes darselo al "@
        + npc_name(recipient)
}

/// The postman's errand: deliver a parcel to `recipient` to learn the way.
pub open spec fn postal_model(recipient: NPC) -> StoryModel {
    StoryModel {
        start_hint: "pero yo no se donde está, seguro que el cartero sabe como llegar"@,
        immediate: None,
        beats: seq![
            plain_beat_model(
                TriggerModel::Dialog(talk(NPC::Cartero, postal_request(recipient))),
                EffectModel::NewItem(Item::Paquete),
            ),
            plain_beat_model(
                TriggerModel::Dialog(
                    ActionModel::Darle(
                        recipient,
                        Item::Paquete,
                        "Muchas gracias por el paquete! Buena suerte en tu aventura!"@,
                    ),
                ),
                EffectModel::NoEffect,
            ),
        ],
        ending: None,
        end_dialog: talk(NPC::Cartero, "Perfecto! Te marco en el mapa el lugar que querías saber"@),
        end_effect: EffectModel::NextPlaceKnoliedge,
    }
}

/// The authored fragments of the adventure, in the order they are loaded.
pub open spec fn catalog() -> Seq<StoryModel> {
    seq![
        StoryModel {
            start_hint: "pero yo no se donde está, creo que el que cuida obejas lo sabe"@,
            immediate: None,
            beats: seq![
                plain_beat_model(
                    TriggerModel::Dialog(
                        talk(
                            NPC::CuidadorObejas,
                            "Se me han escapado las obejas, ayudame a encontrarlas!"@,
                        ),
                    ),
                    EffectModel::NoEffect,
                ),
                plain_beat_model(TriggerModel::MoverObejas, EffectModel::NoEffect),
            ],
            ending: None,
            end_dialog: talk(
                NPC::CuidadorObejas,
                "Genial! Me sacas de un apuro enorme, te has ganado saber como ir hasta donde decías"@,
            ),
            end_effect: EffectModel::NextPlaceKnoliedge,
        },
        StoryModel {
            start_hint: "creo que el de la tienda vendía tinte"@,
            immediate: None,
            beats: seq![],
            ending: None,
            end_dialog: ActionModel::Darle(
                NPC::Vendedor,
                Item::Dinero(20),
                "Aqui tienes lo que querías, muchas gracias por comprar con nosotros"@,
            ),
            end_effect: EffectModel::NewItem(Item::Tinte),
        },
        StoryModel {
            start_hint: "creo que el de la tienda vendía tinte"@,
            immediate: None,
            beats: seq![],
            ending: None,
            end_dialog: talk(
                NPC::Vendedor,
                "Aqui tienes lo que querías, muchas gracias por comprar con nosotros"@,
            ),
            end_effect: EffectModel::NewItem(Item::Tinte),
        },
        StoryModel {
            start_hint: "pero yo no se donde está, creo que el que vende ropa ha contado historias sobre aquel lugar"@,
            immediate: None,
            beats: seq![],
            ending: Some(
                (
                    talk(
                        NPC::VendedorRopa,
                        "Buenos dias, para ayudarte a encontrar el lugar del que hablas quiero que encuentres tinte por mi "@,
                    ),
                    transition_model(
                        EffectModel::NewItem(Item::Tinte),
                        "Perfecto! Te marco en el mapa el lugar que querías saber"@,
                    ),
                ),
            ),
            end_dialog: talk(
                NPC::VendedorRopa,
                "Perfecto! Te marco en el mapa el lugar que querías saber"@,
            ),
            end_effect: EffectModel::NextPlaceKnoliedge,
        },
        StoryModel {
            start_hint: "podrás encontrar los ingredientes en el huerto"@,
            immediate: Some(
                transition_model(
                    EffectModel::NextPlaceKnoliedge,
                    "Ya puedes ir al huerto para conseguir los ingredientes del zumo"@,
                ),
            ),
            beats: seq![
                plain_beat_model(
                    TriggerModel::UseIP(InterestPoint::OrangeTree),
                    EffectModel::NewItem(Item::Naranja),
                ),
            ],
            ending: None,
            end_dialog: ActionModel::FairyComment(
                Box::new(TriggerModel::SpendITOnIP(Item::Naranja, InterestPoint::Batidora)),
                "Bien! Ya hemos conseguido zumito!"@,
            ),
            end_effect: EffectModel::NewItem(Item::Zumito),
        },
        StoryModel {
            start_hint: "para conseguir una espada debes hablar con el herrero"@,
            immediate: None,
            beats: seq![],
            ending: Some(
                (
                    talk(
                        NPC::Herrero,
                        "Hey pequeño! Asi que quieres una espada! si quieres una espada necesitaré que me traigas un zumito"@,
                    ),
                    transition_model(
                        EffectModel::NewItem(Item::Zumito),
                        "ahora vuelve y daselo al herrero, que seguro que te está esperando"@,
                    ),
                ),
            ),
            end_dialog: talk(NPC::Herrero, "Muchas gracias campeón, aqui tienes tu espada!"@),
            end_effect: EffectModel::NewItem(Item::Espada),
        },
        StoryModel {
            start_hint: "han secuestrado a Dulcinea, ve a por el malo"@,
            immediate: Some(
                transition_model(
                    EffectModel::NewItem(Item::Espada),
                    "ahora que tienes la espada, ve a la escuela de espadachines para aprender a usarla"@,
                ),
            ),
            beats: seq![
                plain_beat_model(
                    TriggerModel::Dialog(
                        ActionModel::Ensenar(
                            NPC::MaestroEspadachin,
                            Item::Espada,
                            "Hola! asi que quieres entrenar conmigo? Pasa a la sala de entrenamiento por aqui"@,
                        ),
                    ),
                    EffectModel::CambiarStat("espada"@, 1),
                ),
                plain_beat_model(TriggerModel::Matar(NPC::MiniBoss), EffectModel::NoEffect),
                BeatModel {
                    sub_story: Some(
                        (
                            talk(
                                NPC::MaestroEspadachin,
                                "Muy bien, ya estás preparado para enfrentarte al malo"@,
                            ),
                            transition_model(
                                EffectModel::NextPlaceKnoliedge,
                                "ahora que sabes donde esta revientalé la cara"@,
                            ),
                        ),
                    ),
                    trigger: TriggerModel::Matar(NPC::Malo),
                    effect: EffectModel::NoEffect,
                },
            ],
            ending: None,
            end_dialog: talk(NPC::Padre, "Muy bien hijo"@),
            end_effect: EffectModel::EndGame,
        },
        postal_model(NPC::Herrero),
        postal_model(NPC::CuidadorObejas),
        postal_model(NPC::VendedorRopa),
    ]
}

fn plain_beat(end_triger: Triger, end_effect: StoryEffect) -> (r: StoryBeatDescription)
    ensures
        r.sub_story is None,
        r.end_triger == end_triger,
        r.end_effect == end_effect,
        r@ == plain_beat_model(end_triger@, end_effect@),
{
    StoryBeatDescription { sub_story: None, end_triger, end_effect }
}

fn transition(effect: StoryEffect, comment: &str) -> (r: SubStoryTransition)
    ensures
        r.sub_story_end_effect == effect,
        r@ == transition_model(effect@, comment@),
{
    SubStoryTransition { sub_story_end_effect: effect, end_comment: comment.to_string() }
}

/// The postman's errand: deliver a parcel to `recipient` to learn the way.
fn postal_story(recipient: NPC) -> (r: Story)
    ensures
        r@ == postal_model(recipient),
{
    let mut request = "Hola, si quieres esa info me vas a tener que ayudar en las entregas de hoy. Este paquete debes darselo al ".to_string();
    request.append(recipient.name());
    assert(request@ == postal_request(recipient));
    let mut beats: Vec<StoryBeatDescription> = Vec::new();
    beats.push(
        plain_beat(
            Triger::Dialog(DialogAction::Hablar(NPC::Cartero, request)),
            StoryEffect::NewItem(Item::Paquete),
        ),
    );
    beats.push(
        plain_beat(
            Triger::Dialog(
                DialogAction::Darle(
                    recipient,
                    Item::Paquete,
                    "Muchas gracias por el paquete! Buena suerte en tu aventura!".to_string(),
                ),
            ),
            StoryEffect::NoEffect,
        ),
    );
    let r = Story {
        start_hint: "pero yo no se donde está, seguro que el cartero sabe como llegar".to_string(),
        inmediate_substory: None,
        beats,
        ending_substory: None,
        end_dialog: DialogAction::Hablar(
            NPC::Cartero,
            "Perfecto! Te marco en el mapa el lugar que querías saber".to_string(),
        ),
        end_effect: StoryEffect::NextPlaceKnoliedge,
    };
    assert(r@.beats =~= postal_model(recipient).beats);
    r
}

/// The authored fragments of the adventure, loaded into a fresh heap.
pub fn get_story_heap() -> (r: StoryHeap)
    ensures
        r@ == catalog().map_values(|m: StoryModel| (false, m)),
{
    let mut stories: Vec<Story> = Vec::new();
    let mut beats: Vec<StoryBeatDescription> = Vec::new();
    beats.push(
        plain_beat(
            Triger::Dialog(
                DialogAction::Hablar(
                    NPC::CuidadorObejas,
                    "Se me han escapado las obejas, ayudame a encontrarlas!".to_string(),
                ),
            ),
            StoryEffect::NoEffect,
        ),
    );
    beats.push(plain_beat(Triger::MoverObejas, StoryEffect::NoEffect));
    let story = Story {
        start_hint: "pero yo no se donde está, creo que el que cuida obejas lo sabe".to_string(),
        inmediate_substory: None,
        beats,
        ending_substory: None,
        end_dialog: DialogAction::Hablar(
            NPC::CuidadorObejas,
            "Genial! Me sacas de un apuro enorme, te has ganado saber como ir hasta donde decías".to_string(),
        ),
        end_effect: StoryEffect::NextPlaceKnoliedge,
    };
    assert(story@.beats =~= catalog()[0].beats);
    assert(story@ == catalog()[0]);
    stories.push(story);
    let story = Story {
        start_hint: "creo que el de la tienda vendía tinte".to_string(),
        inmediate_substory: None,
        beats: Vec::new(),
        ending_substory: None,
        end_dialog: DialogAction::Darle(
            NPC::Vendedor,
            Item::Dinero(20),
            "Aqui tienes lo que querías, muchas gracias por comprar con nosotros".to_string(),
        ),
        end_effect: StoryEffect::NewItem(Item::Tinte),
    };
    assert(story@.beats =~= catalog()[1].beats);
    assert(story@ == catalog()[1]);
    stories.push(story);
    let story = Story {
        start_hint: "creo que el de la tienda vendía tinte".to_string(),
        inmediate_substory: None,
        beats: Vec::new(),
        ending_substory: None,
        end_dialog: DialogAction::Hablar(
            NPC::Vendedor,
            "Aqui tienes lo que querías, muchas gracias por comprar con nosotros".to_string(),
        ),
        end_effect: StoryEffect::NewItem(Item::Tinte),
    };
    assert(story@.beats =~= catalog()[2].beats);
    assert(story@ == catalog()[2]);
    stories.push(story);
    let story = Story {
        start_hint: "pero yo no se donde está, creo que el que vende ropa ha contado historias sobre aquel lugar".to_string(),
        inmediate_substory: None,
        beats: Vec::new(),
        ending_substory: Some(
            (
                DialogAction::Hablar(
                    NPC::VendedorRopa,
                    "Buenos dias, para ayudarte a encontrar el lugar del que hablas quiero que encuentres tinte por mi ".to_string(),
                ),
                transition(
                    StoryEffect::NewItem(Item::Tinte),
                    "Perfecto! Te marco en el mapa el lugar que querías saber",
                ),
            ),
        ),
        end_dialog: DialogAction::Hablar(
            NPC::VendedorRopa,
            "Perfecto! Te marco en el mapa el lugar que querías saber".to_string(),
        ),
        end_effect: StoryEffect::NextPlaceKnoliedge,
    };
    assert(story@.beats =~= catalog()[3].beats);
    assert(story@ == catalog()[3]);
    stories.push(story);
    let mut beats: Vec<StoryBeatDescription> = Vec::new();
    beats.push(
        plain_beat(
            Triger::UseIP(InterestPoint::OrangeTree),
            StoryEffect::NewItem(Item::Naranja),
        ),
    );
    let story = Story {
        start_hint: "podrás encontrar los ingredientes en el huerto".to_string(),
        inmediate_substory: Some(
            transition(
                StoryEffect::NextPlaceKnoliedge,
                "Ya puedes ir al huerto para conseguir los ingredientes del zumo",
            ),
        ),
        beats,
        ending_substory: None,
        end_dialog: DialogAction::FairyComment(
            Box::new(Triger::SpendITOnIP(Item::Naranja, InterestPoint::Batidora)),
            "Bien! Ya hemos conseguido zumito!".to_string(),
        ),
        end_effect: StoryEffect::NewItem(Item::Zumito),
    };
    assert(story@.beats =~= catalog()[4].beats);
    assert(story@ == catalog()[4]);
    stories.push(story);
    let story = Story {
        start_hint: "para conseguir una espada debes hablar con el herrero".to_string(),
        inmediate_substory: None,
        beats: Vec::new(),
        ending_substory: Some(
            (
                DialogAction::Hablar(
                    NPC::Herrero,
                    "Hey pequeño! Asi que quieres una espada! si quieres una espada necesitaré que me traigas un zumito".to_string(),
                ),
                transition(
                    StoryEffect::NewItem(Item::Zumito),
                    "ahora vuelve y daselo al herrero, que seguro que te está esperando",
                ),
            ),
        ),
        end_dialog: DialogAction::Hablar(
            NPC::Herrero,
            "Muchas gracias campeón, aqui tienes tu espada!".to_string(),
        ),
        end_effect: StoryEffect::NewItem(Item::Espada),
    };
    assert(story@.beats =~= catalog()[5].beats);
    assert(story@ == catalog()[5]);
    stories.push(story);
    let mut beats: Vec<StoryBeatDescription> = Vec::new();
    beats.push(
        plain_beat(
            Triger::Dialog(
                DialogAction::Ensenar(
                    NPC::MaestroEspadachin,
                    Item::Espada,
                    "Hola! asi que quieres entrenar conmigo? Pasa a la sala de entrenamiento por aqui".to_string(),
                ),
            ),
            StoryEffect::CambiarStat("espada".to_string(), 1),
        ),
    );
    beats.push(plain_beat(Triger::Matar(NPC::MiniBoss), StoryEffect::NoEffect));
    beats.push(
        StoryBeatDescription {
            sub_story: Some(
                (
                    DialogAction::Hablar(
                        NPC::MaestroEspadachin,
                        "Muy bien, ya estás preparado para enfrentarte al malo".to_string(),
                    ),
                    transition(
                        StoryEffect::NextPlaceKnoliedge,
                        "ahora que sabes donde esta revientalé la cara",
                    ),
                ),
            ),
            end_triger: Triger::Matar(NPC::Malo),
            end_effect: StoryEffect::NoEffect,
        },
    );
    let story = Story {
        start_hint: "han secuestrado a Dulcinea, ve a por el malo".to_string(),
        inmediate_substory: Some(
            transition(
                StoryEffect::NewItem(Item::Espada),
                "ahora que tienes la espada, ve a la escuela de espadachines para aprender a usarla",
            ),
        ),
        beats,
        ending_substory: None,
        end_dialog: DialogAction::Hablar(NPC::Padre, "Muy bien hijo".to_string()),
        end_effect: StoryEffect::EndGame,
    };
    assert(story@.beats =~= catalog()[6].beats);
    assert(story@ == catalog()[6]);
    stories.push(story);
    stories.push(postal_story(NPC::Herrero));
    stories.push(postal_story(NPC::CuidadorObejas));
    stories.push(postal_story(NPC::VendedorRopa));
    assert(stories@.map_values(|s: Story| s@) =~= catalog());
    let r = StoryHeap::new(stories);
    assert(r@ =~= catalog().map_values(|m: StoryModel| (false, m)));
    r
}

} // verus!
