use story_builder::story_builder::{
    DialogAction, Story, StoryBeat, StoryBeatDescription, StoryEffect, StoryHeap,
    SubStoryTransition, Triger,
};
use story_builder::story_definition::{get_story_heap, InterestPoint, Item, Place, NPC};

fn talk(npc: NPC, text: &str) -> DialogAction {
    DialogAction::Hablar(npc, text.to_string())
}

fn plain(triger: Triger, effect: StoryEffect) -> StoryBeatDescription {
    StoryBeatDescription { sub_story: None, end_triger: triger, end_effect: effect }
}

fn simple_story(hint: &str, end_text: &str, effect: StoryEffect) -> Story {
    Story {
        start_hint: hint.to_string(),
        inmediate_substory: None,
        beats: vec![],
        ending_substory: None,
        end_dialog: talk(NPC::Vendedor, end_text),
        end_effect: effect,
    }
}

fn step(triger: Triger, effect: StoryEffect) -> StoryBeat {
    StoryBeat { end_triger: triger, end_effect: effect }
}

#[test]
fn single_flat_fragment_renders_three_steps() {
    let story = Story {
        start_hint: "hint".to_string(),
        inmediate_substory: None,
        beats: vec![plain(Triger::MoverObejas, StoryEffect::NoEffect)],
        ending_substory: None,
        end_dialog: talk(NPC::Cartero, "X"),
        end_effect: StoryEffect::NextPlaceKnoliedge,
    };
    let mut heap = StoryHeap::new(vec![story]);
    let steps = heap
        .render(&StoryEffect::NextPlaceKnoliedge, &talk(NPC::Padre, "intro"), &"end".to_string())
        .unwrap();
    assert_eq!(
        steps,
        vec![
            step(Triger::Dialog(talk(NPC::Padre, "intro hint")), StoryEffect::NoEffect),
            step(Triger::MoverObejas, StoryEffect::NoEffect),
            step(Triger::Dialog(talk(NPC::Cartero, "X end")), StoryEffect::NextPlaceKnoliedge),
        ]
    );
}

#[test]
fn trailing_sub_story_is_spliced_before_final_step() {
    let a = Story {
        start_hint: "a-hint".to_string(),
        inmediate_substory: None,
        beats: vec![plain(Triger::Matar(NPC::MiniBoss), StoryEffect::NoEffect)],
        ending_substory: Some((
            talk(NPC::Herrero, "bring juice"),
            SubStoryTransition {
                sub_story_end_effect: StoryEffect::NewItem(Item::Zumito),
                end_comment: "thanks".to_string(),
            },
        )),
        end_dialog: talk(NPC::Herrero, "sword"),
        end_effect: StoryEffect::NewItem(Item::Espada),
    };
    let b = simple_story("b-hint", "juice", StoryEffect::NewItem(Item::Zumito));
    let mut heap = StoryHeap::new(vec![a, b]);
    let steps = heap
        .render(&StoryEffect::NewItem(Item::Espada), &talk(NPC::Padre, "go"), &"done".to_string())
        .unwrap();
    assert_eq!(
        steps,
        vec![
            step(Triger::Dialog(talk(NPC::Padre, "go a-hint")), StoryEffect::NoEffect),
            step(Triger::Matar(NPC::MiniBoss), StoryEffect::NoEffect),
            step(Triger::Dialog(talk(NPC::Herrero, "bring juice b-hint")), StoryEffect::NoEffect),
            step(Triger::Dialog(talk(NPC::Vendedor, "juice thanks")), StoryEffect::NewItem(Item::Zumito)),
            step(Triger::Dialog(talk(NPC::Herrero, "sword done")), StoryEffect::NewItem(Item::Espada)),
        ]
    );
    assert!(heap.candidates(&StoryEffect::NewItem(Item::Espada)).is_empty());
    assert!(heap.candidates(&StoryEffect::NewItem(Item::Zumito)).is_empty());
}

#[test]
fn consumed_fragment_cannot_be_rendered_again() {
    let mut heap = StoryHeap::new(vec![simple_story("h", "e", StoryEffect::NewItem(Item::Espada))]);
    let first = heap.render(&StoryEffect::NewItem(Item::Espada), &talk(NPC::Padre, ""), &"c".to_string());
    assert!(first.is_ok());
    let second = heap.render(&StoryEffect::NewItem(Item::Espada), &talk(NPC::Padre, ""), &"c".to_string());
    assert_eq!(second, Err("No story found".to_string()));
}

#[test]
fn immediate_sub_story_takes_the_introduction() {
    let outer = Story {
        start_hint: "outer-hint".to_string(),
        inmediate_substory: Some(SubStoryTransition {
            sub_story_end_effect: StoryEffect::NextPlaceKnoliedge,
            end_comment: "now go".to_string(),
        }),
        beats: vec![plain(Triger::UseIP(InterestPoint::OrangeTree), StoryEffect::NewItem(Item::Naranja))],
        ending_substory: None,
        end_dialog: DialogAction::FairyComment(
            Box::new(Triger::SpendITOnIP(Item::Naranja, InterestPoint::Batidora)),
            "juice".to_string(),
        ),
        end_effect: StoryEffect::NewItem(Item::Zumito),
    };
    let inner = simple_story("inner-hint", "map", StoryEffect::NextPlaceKnoliedge);
    let mut heap = StoryHeap::new(vec![outer, inner]);
    let steps = heap
        .render(&StoryEffect::NewItem(Item::Zumito), &talk(NPC::Padre, "seed"), &"end".to_string())
        .unwrap();
    assert_eq!(
        steps,
        vec![
            step(Triger::Dialog(talk(NPC::Padre, "seed outer-hint inner-hint")), StoryEffect::NoEffect),
            step(Triger::Dialog(talk(NPC::Vendedor, "map now go")), StoryEffect::NextPlaceKnoliedge),
            step(Triger::UseIP(InterestPoint::OrangeTree), StoryEffect::NewItem(Item::Naranja)),
            step(
                Triger::Dialog(DialogAction::FairyComment(
                    Box::new(Triger::SpendITOnIP(Item::Naranja, InterestPoint::Batidora)),
                    "juice end".to_string(),
                )),
                StoryEffect::NewItem(Item::Zumito),
            ),
        ]
    );
}

#[test]
fn beat_with_sub_story_expands_in_place() {
    let outer = Story {
        start_hint: "o".to_string(),
        inmediate_substory: None,
        beats: vec![
            plain(Triger::Matar(NPC::MiniBoss), StoryEffect::NoEffect),
            StoryBeatDescription {
                sub_story: Some((
                    talk(NPC::MaestroEspadachin, "ready"),
                    SubStoryTransition {
                        sub_story_end_effect: StoryEffect::NextPlaceKnoliedge,
                        end_comment: "go get him".to_string(),
                    },
                )),
                end_triger: Triger::Matar(NPC::Malo),
                end_effect: StoryEffect::NoEffect,
            },
            plain(Triger::Enter(Place::Guarida), StoryEffect::NoEffect),
        ],
        ending_substory: None,
        end_dialog: talk(NPC::Padre, "well done"),
        end_effect: StoryEffect::EndGame,
    };
    let inner = simple_story("i", "there", StoryEffect::NextPlaceKnoliedge);
    let mut heap = StoryHeap::new(vec![outer, inner]);
    let steps = heap.render(&StoryEffect::EndGame, &talk(NPC::Padre, ""), &"!".to_string()).unwrap();
    assert_eq!(
        steps,
        vec![
            step(Triger::Dialog(talk(NPC::Padre, " o")), StoryEffect::NoEffect),
            step(Triger::Matar(NPC::MiniBoss), StoryEffect::NoEffect),
            step(Triger::Dialog(talk(NPC::MaestroEspadachin, "ready i")), StoryEffect::NoEffect),
            step(Triger::Dialog(talk(NPC::Vendedor, "there go get him")), StoryEffect::NextPlaceKnoliedge),
            step(Triger::Enter(Place::Guarida), StoryEffect::NoEffect),
            step(Triger::Dialog(talk(NPC::Padre, "well done !")), StoryEffect::EndGame),
        ]
    );
}

#[test]
fn missing_dependency_fails_the_whole_render() {
    let outer = Story {
        start_hint: "o".to_string(),
        inmediate_substory: None,
        beats: vec![],
        ending_substory: Some((
            talk(NPC::Herrero, "need"),
            SubStoryTransition {
                sub_story_end_effect: StoryEffect::NewItem(Item::Tinte),
                end_comment: "c".to_string(),
            },
        )),
        end_dialog: talk(NPC::Herrero, "x"),
        end_effect: StoryEffect::NewItem(Item::Espada),
    };
    let mut heap = StoryHeap::new(vec![outer]);
    let r = heap.render(&StoryEffect::NewItem(Item::Espada), &talk(NPC::Padre, ""), &"".to_string());
    assert_eq!(r, Err("No story found".to_string()));
}

#[test]
fn cyclic_dependencies_end_in_an_error() {
    let a = Story {
        start_hint: "a".to_string(),
        inmediate_substory: Some(SubStoryTransition {
            sub_story_end_effect: StoryEffect::EndGame,
            end_comment: "again".to_string(),
        }),
        beats: vec![],
        ending_substory: None,
        end_dialog: talk(NPC::Padre, "x"),
        end_effect: StoryEffect::EndGame,
    };
    let mut heap = StoryHeap::new(vec![a]);
    let r = heap.render(&StoryEffect::EndGame, &talk(NPC::Padre, ""), &"".to_string());
    assert_eq!(r, Err("No story found".to_string()));
}

#[test]
fn get_hands_out_each_fragment_once() {
    let mut heap = StoryHeap::new(vec![
        simple_story("a", "a", StoryEffect::NewItem(Item::Tinte)),
        simple_story("b", "b", StoryEffect::NewItem(Item::Tinte)),
        simple_story("c", "c", StoryEffect::EndGame),
    ]);
    let first = heap.get(&StoryEffect::NewItem(Item::Tinte)).unwrap();
    let second = heap.get(&StoryEffect::NewItem(Item::Tinte)).unwrap();
    assert_ne!(first.start_hint, second.start_hint);
    let mut hints = vec![first.start_hint, second.start_hint];
    hints.sort();
    assert_eq!(hints, vec!["a".to_string(), "b".to_string()]);
    assert_eq!(heap.get(&StoryEffect::NewItem(Item::Tinte)), Err("No story found".to_string()));
    assert_eq!(heap.get(&StoryEffect::EndGame).unwrap().start_hint, "c".to_string());
}

#[test]
fn exhausted_effect_consumes_nothing_more() {
    let mut heap = StoryHeap::new(vec![
        simple_story("a", "a", StoryEffect::NewItem(Item::Tinte)),
        simple_story("b", "b", StoryEffect::EndGame),
    ]);
    heap.get(&StoryEffect::NewItem(Item::Tinte)).unwrap();
    assert!(heap.get(&StoryEffect::NewItem(Item::Tinte)).is_err());
    assert_eq!(heap.candidates(&StoryEffect::EndGame), vec![1]);
}

#[test]
fn reset_restores_every_candidate() {
    let mut heap = StoryHeap::new(vec![
        simple_story("a", "a", StoryEffect::NewItem(Item::Tinte)),
        simple_story("b", "b", StoryEffect::NewItem(Item::Tinte)),
        simple_story("c", "c", StoryEffect::EndGame),
    ]);
    heap.get(&StoryEffect::NewItem(Item::Tinte)).unwrap();
    heap.get(&StoryEffect::EndGame).unwrap();
    assert_eq!(heap.candidates(&StoryEffect::NewItem(Item::Tinte)).len(), 1);
    assert!(heap.candidates(&StoryEffect::EndGame).is_empty());
    heap.reset_used();
    assert_eq!(heap.candidates(&StoryEffect::NewItem(Item::Tinte)), vec![0, 1]);
    assert_eq!(heap.candidates(&StoryEffect::EndGame), vec![2]);
    heap.reset_used();
    assert_eq!(heap.candidates(&StoryEffect::NewItem(Item::Tinte)), vec![0, 1]);
}

#[test]
fn take_consumes_the_given_fragment() {
    let mut heap = StoryHeap::new(vec![
        simple_story("a", "a", StoryEffect::NewItem(Item::Tinte)),
        simple_story("b", "b", StoryEffect::NewItem(Item::Tinte)),
    ]);
    let s = heap.take(1);
    assert_eq!(s.start_hint, "b".to_string());
    assert_eq!(heap.candidates(&StoryEffect::NewItem(Item::Tinte)), vec![0]);
}

#[test]
fn candidates_match_effect_payload() {
    let heap = StoryHeap::new(vec![
        simple_story("a", "a", StoryEffect::CambiarStat("espada".to_string(), 1)),
        simple_story("b", "b", StoryEffect::CambiarStat("espada".to_string(), 2)),
        simple_story("c", "c", StoryEffect::NewItem(Item::Dinero(5))),
    ]);
    assert_eq!(heap.candidates(&StoryEffect::CambiarStat("espada".to_string(), 1)), vec![0]);
    assert_eq!(heap.candidates(&StoryEffect::NewItem(Item::Dinero(5))), vec![2]);
    assert!(heap.candidates(&StoryEffect::NewItem(Item::Dinero(6))).is_empty());
}

#[test]
fn same_as_compares_payloads() {
    assert!(StoryEffect::EndGame.same_as(&StoryEffect::EndGame));
    assert!(!StoryEffect::EndGame.same_as(&StoryEffect::NoEffect));
    assert!(StoryEffect::CambiarStat("x".to_string(), 1).same_as(&StoryEffect::CambiarStat("x".to_string(), 1)));
    assert!(!StoryEffect::CambiarStat("x".to_string(), 1).same_as(&StoryEffect::CambiarStat("y".to_string(), 1)));
}

#[test]
fn add_comment_keeps_variant_and_payload() {
    assert_eq!(talk(NPC::Malo, "hi").add_comment("there".to_string()), talk(NPC::Malo, "hi there"));
    assert_eq!(
        DialogAction::Darle(NPC::Herrero, Item::Dinero(3), "a".to_string()).add_comment("b".to_string()),
        DialogAction::Darle(NPC::Herrero, Item::Dinero(3), "a b".to_string())
    );
    assert_eq!(
        DialogAction::Ensenar(NPC::MaestroEspadachin, Item::Espada, "".to_string()).add_comment("".to_string()),
        DialogAction::Ensenar(NPC::MaestroEspadachin, Item::Espada, " ".to_string())
    );
    assert_eq!(
        DialogAction::FairyComment(Box::new(Triger::Inmediate), "x".to_string())
            .add_comment("y".to_string())
            .add_comment("z".to_string()),
        DialogAction::FairyComment(Box::new(Triger::Inmediate), "x y z".to_string())
    );
}

#[test]
fn plain_beat_renders_as_itself() {
    let mut heap = StoryHeap::new(vec![]);
    let beat = plain(Triger::GetCloseTo(InterestPoint::Batidora, "near".to_string()), StoryEffect::NoEffect);
    assert_eq!(
        beat.render(&mut heap),
        Ok(vec![step(Triger::GetCloseTo(InterestPoint::Batidora, "near".to_string()), StoryEffect::NoEffect)])
    );
}

#[test]
fn npc_names_and_locations() {
    assert_eq!(NPC::Padre.name(), "Padre");
    assert_eq!(NPC::VendedorRopa.name(), "Vendedor de ropa");
    assert_eq!(NPC::MiniBoss.name(), "Mini boss");
    assert_eq!(NPC::Padre.location(), Place::Casa);
    assert_eq!(NPC::MiniBoss.location(), Place::EscuelaEspadachin);
    assert_eq!(NPC::Agricultor.location(), Place::Huerto);
}

#[test]
fn catalog_renders_to_the_end_of_the_game() {
    let mut heap = get_story_heap();
    for _ in 0..20 {
        heap.reset_used();
        let steps = heap
            .render(
                &StoryEffect::EndGame,
                &talk(NPC::Padre, ""),
                &" -- terminaste el juego --".to_string(),
            )
            .unwrap();
        assert_eq!(
            steps[0],
            step(
                Triger::Dialog(talk(
                    NPC::Padre,
                    " han secuestrado a Dulcinea, ve a por el malo para conseguir una espada debes hablar con el herrero"
                )),
                StoryEffect::NoEffect
            )
        );
        assert_eq!(
            steps.last().unwrap(),
            &step(
                Triger::Dialog(talk(NPC::Padre, "Muy bien hijo  -- terminaste el juego --")),
                StoryEffect::EndGame
            )
        );
    }
}

#[test]
fn nested_trailing_fragment_renders_and_consumes_both() {
    let a = Story {
        start_hint: "ha".to_string(),
        inmediate_substory: None,
        beats: vec![],
        ending_substory: Some((
            talk(NPC::Herrero, "t"),
            SubStoryTransition {
                sub_story_end_effect: StoryEffect::NewItem(Item::Zumito),
                end_comment: "c".to_string(),
            },
        )),
        end_dialog: talk(NPC::Herrero, "a"),
        end_effect: StoryEffect::EndGame,
    };
    let b = Story {
        start_hint: "hb".to_string(),
        inmediate_substory: None,
        beats: vec![],
        ending_substory: None,
        end_dialog: talk(NPC::Padre, "b"),
        end_effect: StoryEffect::NewItem(Item::Zumito),
    };
    let mut heap = StoryHeap::new(vec![a.clone(), b]);
    let steps = heap.render(&StoryEffect::EndGame, &talk(NPC::Padre, "s"), &"e".to_string()).unwrap();
    assert_eq!(
        steps,
        vec![
            step(Triger::Dialog(talk(NPC::Padre, "s ha")), StoryEffect::NoEffect),
            step(Triger::Dialog(talk(NPC::Herrero, "t hb")), StoryEffect::NoEffect),
            step(Triger::Dialog(talk(NPC::Padre, "b c")), StoryEffect::NewItem(Item::Zumito)),
            step(Triger::Dialog(talk(NPC::Herrero, "a e")), StoryEffect::EndGame),
        ]
    );
    assert!(heap.candidates(&StoryEffect::EndGame).is_empty());
    assert!(heap.candidates(&StoryEffect::NewItem(Item::Zumito)).is_empty());
    assert_eq!(heap.take(0), a);
}
